//! The parts that generated code is put together from.

use mockall_derive::ast::{Arg, ImplItemMethod, Item, ItemMethod, ItemTrait, Pattern, Ty};
use mockall_derive::generics::GenericList;
use mockall_derive::method::{format_attrs, gen_mock_method};
use mockall_derive::method_types::{deimplify, demutify, destrify, method_types};
use mockall_derive::mock::{do_mock, tim2iim, Mock};
use mockall_derive::parse::inherent_method;
use mockall_derive::structure::gen_struct;
use mockall_derive::syntax::read_item;
use mockall_derive::trait_impl::mock_trait_methods;
use mockall_derive::words::{gen_mock_ident, gen_mod_ident};
use proc_macro2::TokenStream;
use std::str::FromStr;

fn tokens(code: &str) -> TokenStream {
    TokenStream::from_str(code).unwrap()
}

fn same(found: &TokenStream, expected: &str) {
    assert_eq!(found.to_string(), tokens(expected).to_string());
}

fn mock(code: &str) -> Mock {
    Mock::parse(tokens(code)).unwrap()
}

fn method(code: &str) -> ImplItemMethod {
    mock(&format!("Foo {{ {} }}", code)).methods.remove(0)
}

fn item_trait(code: &str) -> ItemTrait {
    mock(&format!("Foo {{}} {}", code)).traits.remove(0)
}

fn no_generics() -> GenericList {
    GenericList { params: syn::Generics::default(), where_clause: TokenStream::new() }
}

#[test]
fn names() {
    assert_eq!(gen_mock_ident("Foo"), "MockFoo");
    assert_eq!(gen_mod_ident("Foo", None), "__mock_Foo");
    assert_eq!(gen_mod_ident("Foo", Some("Bar")), "__mock_Foo_Bar");
}

#[test]
fn parsed_description() {
    let m = mock(
        "pub(crate) Foo<'a, T: Clone> where T: Copy { fn f(&self); fn g(); } \
         unsafe trait A<U> where U: Copy { const N: u8; type T = u8; fn h(self) {} mac!(); } \
         trait B {}",
    );
    same(&m.vis, "pub(crate)");
    same(&m.name, "Foo");
    same(&m.generics.where_clause, "where T: Copy");
    assert_eq!(m.generics.params.params.len(), 2);
    assert_eq!(m.methods.len(), 2);
    same(&m.methods[1].sig.ident, "g");
    assert_eq!(m.traits.len(), 2);
    same(&m.traits[0].unsafety, "unsafe");
    same(&m.traits[0].ident, "A");
    same(&m.traits[0].generics.where_clause, "where U: Copy");
    assert_eq!(m.traits[0].items.len(), 4);
    assert!(matches!(m.traits[0].items[0], Item::Const));
    assert!(matches!(m.traits[0].items[1], Item::Type(_)));
    assert!(matches!(m.traits[0].items[2], Item::Method(_)));
    assert!(matches!(m.traits[0].items[3], Item::Other));
    same(&m.traits[1].unsafety, "");
    assert_eq!(m.traits[1].items.len(), 0);
}

#[test]
fn bare_structures() {
    for (code, vis) in [
        ("Foo {}", ""),
        ("pub Foo {}", "pub"),
        ("crate Foo {}", "crate"),
        ("pub(crate) Foo {}", "pub(crate)"),
        ("pub(in a::b) Foo {}", "pub(in a::b)"),
    ] {
        let m = mock(code);
        same(&m.vis, vis);
        same(&m.name, "Foo");
        assert!(m.generics.params.params.is_empty());
        assert!(m.generics.where_clause.is_empty());
        assert!(m.methods.is_empty());
        assert!(m.traits.is_empty());
    }
}

#[test]
fn parsed_signature() {
    let sig = method("unsafe extern \"C\" fn f<T>(&mut self, mut x: T, &y: &u8, z: &'static mut str,) -> impl Fn() where T: Copy;").sig;
    same(&sig.constness, "");
    same(&sig.unsafety, "unsafe");
    same(&sig.asyncness, "");
    same(&sig.abi, "extern \"C\"");
    same(&sig.fn_token, "fn");
    same(&sig.ident, "f");
    assert_eq!(sig.generics.params.params.len(), 1);
    same(&sig.generics.where_clause, "where T: Copy");
    assert!(sig.trailing_comma);
    assert!(!sig.variadic);
    assert_eq!(sig.inputs.len(), 4);
    same(&sig.inputs[0].to_tokens(), "&mut self");
    assert!(matches!(sig.inputs[0], Arg::SelfRef(_)));
    same(&sig.inputs[1].to_tokens(), "mut x: T");
    assert!(matches!(
        sig.inputs[1],
        Arg::Captured { pat: Pattern::Binding { .. }, ty: Ty::Other(_) }
    ));
    same(&sig.inputs[2].to_tokens(), "&y: &u8");
    assert!(matches!(sig.inputs[2], Arg::Captured { pat: Pattern::Other(_), .. }));
    same(&sig.inputs[3].to_tokens(), "z: & 'static mut str");
    assert!(matches!(sig.inputs[3], Arg::Captured { ty: Ty::Reference { .. }, .. }));
    assert!(matches!(sig.output, Some(Ty::ImplTrait { .. })));
    same(&sig.output.unwrap().to_tokens(), "impl Fn()");
    let sig = method("const fn g(mut self, ref mut a @ 1: u8);").sig;
    same(&sig.constness, "const");
    same(&sig.inputs[0].to_tokens(), "mut self");
    assert!(matches!(sig.inputs[0], Arg::SelfValue { .. }));
    same(&sig.inputs[1].to_tokens(), "ref mut a @ 1: u8");
    assert!(!sig.trailing_comma);
    assert!(sig.output.is_none());
}

/// The type of a variable number of arguments is taken as it stands.
#[test]
fn parsed_dots() {
    let sig = method("fn f(x: ...);").sig;
    same(&sig.inputs[0].to_tokens(), "x: ...");
    assert!(matches!(sig.inputs[0], Arg::Captured { ty: Ty::Other(_), .. }));
}

#[test]
fn read_items() {
    let read = |code: &str| read_item(syn::parse_str(code).unwrap());
    assert!(matches!(read("const N: u8;"), Item::Const));
    assert!(matches!(read("mac!();"), Item::Other));
    match read("#[inline] fn f(&self) { #![inner] }") {
        Item::Method(m) => {
            same(&m.sig.ident, "f");
            assert_eq!(m.attrs.len(), 2);
            assert_eq!(m.attrs[0].path, vec!["inline".to_string()]);
            same(&m.attrs[0].tokens, "#[inline]");
            same(&m.attrs[1].tokens, "# ![inner]");
        }
        _ => panic!("a method"),
    }
    match read("type T<'a>: Copy = u8;") {
        Item::Type(t) => {
            assert!(t.generic);
            assert!(t.concrete);
            same(&t.tokens, "type T< 'a> : Copy = u8;");
        }
        _ => panic!("a type"),
    }
}

#[test]
fn attributes() {
    let m = method("#[a] #[doc = \"x\"] #[doc::b(c)] /// y\n #[cfg(d)] fn f(&self);");
    same(&format_attrs(&m.attrs), "#[a] #[doc::b(c)] #[cfg(d)]");
    same(&format_attrs(&vec![]), "");
}

#[test]
fn inherent_methods_are_public_and_empty() {
    let m = method("#[a] fn f(&self) -> u8 { 1 }");
    same(&m.vis, "pub");
    same(&m.defaultness, "");
    same(&m.block, "{}");
    let item = item_trait("trait A { #[a] fn f(&self) -> u8; }").items.remove(0);
    let n = inherent_method(&item, &TokenStream::new()).unwrap();
    same(&n.sig.ident, "f");
    same(&n.attrs[0].tokens, "#[a]");
    same(&n.block, "{}");
    let m = tim2iim(&ItemMethod { attrs: m.attrs, sig: m.sig });
    same(&m.vis, "pub");
    same(&m.block, "{}");
    same(&m.attrs[0].tokens, "#[a]");
    same(&m.sig.output.unwrap().to_tokens(), "u8");
}

#[test]
fn mutability() {
    let sig = method("fn f(mut self, mut a: u8, ref mut b: u8, (mut c, d): (u8, u8));").sig;
    let inputs = demutify(&sig.inputs);
    same(&inputs[0].to_tokens(), "self");
    same(&inputs[1].to_tokens(), "a: u8");
    same(&inputs[2].to_tokens(), "ref b: u8");
    same(&inputs[3].to_tokens(), "(mut c, d): (u8, u8)");
}

fn result(code: &str) -> Ty {
    method(&format!("fn f() -> {};", code)).sig.output.unwrap()
}

#[test]
fn unnamed_types() {
    let mut ty = result("impl Debug + Send");
    deimplify(&mut ty);
    same(&ty.to_tokens(), "Box<dyn Debug + Send>");
    let mut ty = result("Option<impl Debug>");
    deimplify(&mut ty);
    same(&ty.to_tokens(), "Option<impl Debug>");
}

#[test]
fn string_slices() {
    let mut ty = result("& 'static mut str");
    destrify(&mut ty);
    same(&ty.to_tokens(), "& 'static mut ::std::string::String");
    let mut ty = result("&u8");
    destrify(&mut ty);
    same(&ty.to_tokens(), "&u8");
    let mut ty = result("str");
    destrify(&mut ty);
    same(&ty.to_tokens(), "str");
}

#[test]
fn types_of_a_method() {
    let types = method_types(&method("fn f<T>(&self, a: u8, mut b: &T) -> &mut u8;").sig);
    assert!(!types.is_static);
    assert_eq!(types.call, "call_mut");
    same(&types.expectation, "f::Expectation<T>");
    same(&types.expectations, "f::GenericExpectations");
    same(&types.expect_obj, "f::GenericExpectations");
    same(&types.altargs, "p1: &u8, p2: &T");
    same(&types.matchexprs, "&a, b");
    let types = method_types(&method("fn f(a: u8) -> &u8;").sig);
    assert!(types.is_static);
    assert_eq!(types.call, "call");
    same(&types.expectation, "f::Expectation");
    same(&types.expectations, "f::Expectations");
    same(&types.altargs, "p0: &u8");
}

/// Without a module the paths start at the root.
#[test]
fn method_without_a_module() {
    let m = method("fn f(&self, mut x: u8);");
    let (mm, em, cp) =
        gen_mock_method(None, "MockFoo", &m.attrs, &tokens("pub"), &m.block, &m.sig, Some("Bar"))
            .unwrap();
    same(&mm, "pub fn f(&self, x: u8) { self.Bar_expectations.f.call(x) }");
    same(
        &em,
        "{} fn expect_f(&mut self) -> &mut ::f::Expectation { self.Bar_expectations.f.expect() }",
    );
    same(&cp, "{ self.Bar_expectations.f.checkpoint(); }");
}

#[test]
fn structure_with_subs() {
    let subs = vec![
        ("A".to_string(), mock("Foo<T> {}").generics),
        ("B".to_string(), no_generics()),
    ];
    let methods = vec![method("fn f(&self);"), method("fn g();")];
    let found = gen_struct(&tokens("pub"), "Foo", &no_generics(), &subs, &methods).unwrap();
    same(
        &found,
        "#[allow(non_snake_case)]
        mod __mock_Foo {
            ::mockall::expectation! { fn f< >(&self) -> () { let () = (); } }
            ::mockall::expectation! { fn g< >() -> () { let () = (); } }
        }
        pub struct MockFoo {
            A_expectations: MockFoo_A<T> ,
            B_expectations: MockFoo_B,
            f: __mock_Foo::f::Expectations,
        }
        ::mockall::lazy_static! {
            static ref MockFoo_g_expectation: ::std::sync::Mutex<__mock_Foo::g::Expectations> =
                ::std::sync::Mutex::new(__mock_Foo::g::Expectations::new());
        }
        impl ::std::default::Default for MockFoo {
            fn default() -> Self {
                Self {
                    A_expectations: MockFoo_A::default(),
                    B_expectations: MockFoo_B::default(),
                    f: __mock_Foo::f::Expectations::default(),
                }
            }
        }",
    );
}

/// Without other generic parameters the mock structure has those of the trait.
#[test]
fn trait_with_its_own_parameters() {
    let item = item_trait("trait Bar<T> where T: Copy { fn f(&self, x: T); }");
    let found = mock_trait_methods("Foo", None, &item).unwrap();
    same(
        &found,
        "impl<T> Bar<T> for MockFoo<T> where T: Copy {
            fn f(&self, x: T) { self.Bar_expectations.f.call(x) }
        }
        impl<T> MockFoo<T> where T: Copy {
            pub fn expect_f(&mut self) -> &mut __mock_Foo_Bar::f::Expectation {
                self.Bar_expectations.f.expect()
            }
        }",
    );
}

/// A description that comes from another macro may be in groups without delimiters.
#[test]
fn invisible_groups() {
    let group = |code: &str| {
        let group = proc_macro2::Group::new(proc_macro2::Delimiter::None, tokens(code));
        proc_macro2::TokenTree::Group(group)
    };
    let mut input = TokenStream::new();
    input.extend(vec![group("Foo"), group("{ fn f(&self); }")]);
    let plain = do_mock(tokens("Foo { fn f(&self); }")).unwrap();
    assert_eq!(do_mock(input).unwrap().to_string(), plain.to_string());
}
