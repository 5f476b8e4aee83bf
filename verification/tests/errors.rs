//! What is refused, and what is said of it.

use mockall_derive::ast::{Arg, Item, Signature};
use mockall_derive::error::MockError;
use mockall_derive::generics::GenericList;
use mockall_derive::method::gen_mock_method;
use mockall_derive::mock::{do_mock, Mock};
use mockall_derive::parse::inherent_method;
use mockall_derive::readable::{check_header, check_literal, check_readable};
use mockall_derive::structure::gen_struct;
use mockall_derive::syntax::ParseError;
use mockall_derive::tokens::check_ident;
use mockall_derive::trait_impl::mock_trait_methods;
use proc_macro2::TokenStream;
use std::str::FromStr;

fn tokens(code: &str) -> TokenStream {
    TokenStream::from_str(code).unwrap()
}

/// The description is wrong.
fn wrong(code: &str, message: &str) {
    let expected = tokens(&format!("compile_error! {{ {:?} }}", message));
    assert_eq!(do_mock(tokens(code)).unwrap().to_string(), expected.to_string());
    match Mock::parse(tokens(code)) {
        Err(ParseError::Syntax(error)) => assert_eq!(error.to_string(), message),
        _ => panic!("an error in the syntax"),
    }
}

/// The description cannot be read.
fn unreadable(input: TokenStream) {
    assert_eq!(do_mock(input.clone()).unwrap_err(), MockError::Unreadable);
    assert!(matches!(Mock::parse(input), Err(ParseError::Unreadable)));
}

/// The description is read, but not supported.
fn refused(code: &str, error: MockError) {
    assert_eq!(do_mock(tokens(code)).unwrap_err(), error);
    assert_eq!(Mock::parse(tokens(code)).unwrap().gen().unwrap_err(), error);
}

fn no_generics() -> GenericList {
    GenericList { params: syn::Generics::default(), where_clause: TokenStream::new() }
}

fn signature(ident: &str, inputs: Vec<Arg>) -> Signature {
    Signature {
        constness: TokenStream::new(),
        unsafety: TokenStream::new(),
        asyncness: TokenStream::new(),
        abi: TokenStream::new(),
        fn_token: tokens("fn"),
        ident: tokens(ident),
        generics: no_generics(),
        inputs,
        trailing_comma: false,
        variadic: false,
        output: None,
    }
}

#[test]
fn no_name() {
    wrong("", "unexpected end of input, expected identifier");
    wrong("pub", "unexpected end of input, expected identifier");
    wrong("pub 3 {}", "expected identifier");
    wrong("type {}", "expected identifier");
    wrong("_ {}", "expected identifier");
}

#[test]
fn no_braces() {
    wrong("Foo", "unexpected end of input, expected curly braces");
    wrong("Foo;", "expected curly braces");
    wrong("Foo<T> where T: Clone;", "expected curly braces");
}

#[test]
fn own_item_is_no_method() {
    wrong("Foo { const N: u32; }", "unexpected end of input, Unsupported in this context");
    wrong("Foo { type T; } trait A {}", "Unsupported in this context");
    wrong("Foo { mac!(); } trait A {}", "Unsupported in this context");
}

#[test]
fn own_item_is_taken_for_what_it_is() {
    let rest = tokens("trait A {}");
    let error = inherent_method(&Item::Const, &rest).unwrap_err();
    assert_eq!(error.to_string(), "Unsupported in this context");
    let error = inherent_method(&Item::Other, &TokenStream::new()).unwrap_err();
    assert_eq!(error.to_string(), "unexpected end of input, Unsupported in this context");
}

#[test]
fn no_trait_after_the_structure() {
    wrong("Foo {} struct A;", "expected `trait`");
    wrong("Foo {} trait A", "unexpected end of input, expected curly braces");
    wrong("Foo {} trait A { fn }", "unexpected end of input, expected identifier");
}

#[test]
fn tokens_left_over_in_a_group() {
    wrong("Foo { fn f(x: [u8; 3 4]); }", "unexpected token");
    wrong("Foo {} trait A { fn f(x: [u8; 3 4]); }", "unexpected token");
    wrong("Foo<T: Fn([u8; 3 4])> {}", "unexpected token");
    wrong("Foo where T: Fn([u8; 3 4]) {}", "unexpected token");
}

/// What is left over counts only where nothing else is wrong.
#[test]
fn tokens_left_over_before_another_error() {
    wrong("Foo { fn f(x: [u8; 3 4]); } trait", "unexpected end of input, expected identifier");
    wrong("Foo { fn f(x: [u8; 3 4]); const N: u8; } trait A {}", "Unsupported in this context");
}

#[test]
fn raw_names() {
    refused("r#Foo {}", MockError::Name);
    refused("Foo { fn r#f(&self); }", MockError::Name);
    refused("Foo {} trait r#A {}", MockError::Name);
    refused("Foo {} trait A { fn r#f(&self); }", MockError::Name);
    assert!(do_mock(tokens("Foo { fn f(&self, r#type: u8); }")).is_ok());
}

#[test]
fn generic_parameters_of_the_structure() {
    refused("Foo<'a, 'b: 'a> {}", MockError::LifetimeBounds);
    refused("Foo<const N: usize> {}", MockError::ConstParameter);
    refused("Foo<'b: 'a, const N: usize> {}", MockError::LifetimeBounds);
    assert!(do_mock(tokens("Foo<'a, T: 'a> {}")).is_ok());
}

#[test]
fn generic_associated_type() {
    refused("Foo {} trait A { type T<'a> = &'a u8; }", MockError::GenericAssociatedType);
    refused("Foo {} trait A { type T<'a>; }", MockError::GenericAssociatedType);
}

#[test]
fn open_associated_type() {
    refused("Foo {} trait A { type T; }", MockError::OpenAssociatedType);
    assert!(do_mock(tokens("Foo {} trait A { type T = u8; }")).is_ok());
}

#[test]
fn item_of_a_trait_is_a_macro() {
    refused("Foo {} trait A { mac!(); }", MockError::TraitItem);
    assert!(do_mock(tokens("Foo {} trait A { const N: u8; }")).is_ok());
}

#[test]
fn parameter_without_a_pattern() {
    refused("Foo { fn f(&self, u8); }", MockError::Argument);
    refused("Foo {} trait A { fn f(&self, u8); }", MockError::Argument);
    let sig = signature("f", vec![Arg::Other(tokens("u8"))]);
    let none = TokenStream::new();
    let r = gen_mock_method(None, "MockFoo", &vec![], &none, &none, &sig, None);
    assert_eq!(r.unwrap_err(), MockError::Argument);
}

#[test]
fn variable_number_of_arguments() {
    let mut sig = signature("f", vec![]);
    sig.variadic = true;
    let none = TokenStream::new();
    let r = gen_mock_method(None, "MockFoo", &vec![], &none, &none, &sig, None);
    assert_eq!(r.unwrap_err(), MockError::Variadic);
}

/// The items of a trait are looked at in order.
#[test]
fn first_error_of_a_trait() {
    refused("Foo {} trait A { type T; mac!(); }", MockError::OpenAssociatedType);
    refused("Foo {} trait A { mac!(); type T; }", MockError::TraitItem);
}

#[test]
fn names_that_are_no_identifiers() {
    let none = TokenStream::new();
    let sig = signature("f", vec![]);
    let r = gen_mock_method(None, "1", &vec![], &none, &none, &sig, None);
    assert_eq!(r.unwrap_err(), MockError::Name);
    let r = gen_mock_method(None, "MockFoo", &vec![], &none, &none, &sig, Some(""));
    assert_eq!(r.unwrap_err(), MockError::Name);
    let r = gen_struct(&none, "a b", &no_generics(), &vec![], &vec![]);
    assert_eq!(r.unwrap_err(), MockError::Name);
    let subs = vec![("a-b".to_string(), no_generics())];
    let r = gen_struct(&none, "Foo", &no_generics(), &subs, &vec![]);
    assert_eq!(r.unwrap_err(), MockError::Name);
    let mock = Mock::parse(tokens("Foo {} trait A {}")).unwrap();
    let r = mock_trait_methods("r#Foo", None, &mock.traits[0]);
    assert_eq!(r.unwrap_err(), MockError::Name);
    let mock = Mock::parse(tokens("Foo {} trait r#A { fn f(&self); }")).unwrap();
    let r = mock_trait_methods("Foo", None, &mock.traits[0]);
    assert_eq!(r.unwrap_err(), MockError::Name);
    let sig = signature("a + b", vec![]);
    let r = gen_mock_method(None, "MockFoo", &vec![], &none, &none, &sig, None);
    assert_eq!(r.unwrap_err(), MockError::Name);
}

/// A raw name that no other name is made of is written as it stands.
#[test]
fn raw_names_that_are_kept() {
    let mock = Mock::parse(tokens("Foo {} trait r#A { const N: u8; }")).unwrap();
    let r = mock_trait_methods("Foo", None, &mock.traits[0]).unwrap();
    assert_eq!(r.to_string(), tokens("impl r#A for MockFoo {} impl MockFoo {}").to_string());
    let mock = Mock::parse(tokens("Foo { fn r#f(&self); }")).unwrap();
    let none = TokenStream::new();
    let r = gen_struct(&none, "Foo", &no_generics(), &vec![], &mock.methods).unwrap().to_string();
    assert!(r.contains(&tokens("r#f: __mock_Foo::r#f::Expectations,").to_string()));
    let mock = Mock::parse(tokens("Foo { fn r#f(); }")).unwrap();
    let r = gen_struct(&none, "Foo", &no_generics(), &vec![], &mock.methods);
    assert_eq!(r.unwrap_err(), MockError::Name);
}

/// The parameters are looked at before the name of a method with a `self`.
#[test]
fn first_error_of_a_method() {
    let none = TokenStream::new();
    let sig = signature("r#f", vec![Arg::SelfRef(tokens("&self")), Arg::Other(tokens("u8"))]);
    let r = gen_mock_method(None, "MockFoo", &vec![], &none, &none, &sig, None);
    assert_eq!(r.unwrap_err(), MockError::Argument);
    let sig = signature("r#f", vec![Arg::Other(tokens("u8"))]);
    let r = gen_mock_method(None, "MockFoo", &vec![], &none, &none, &sig, None);
    assert_eq!(r.unwrap_err(), MockError::Name);
}

#[test]
fn lifetime_first_in_a_bound_object() {
    let ty = "Box<for<'a> dyn 'static + Fn(&'a u8)>";
    unreadable(tokens(&format!("Foo {{ fn f(&self, x: {}); }}", ty)));
    unreadable(tokens(&format!("Foo {{}} trait A {{ fn f(&self) -> {}; }}", ty)));
    unreadable(tokens(&format!("Foo<T: Into<{}>> {{}}", ty)));
    unreadable(tokens(&format!("Foo<T> where T: Into<{}> {{}}", ty)));
    unreadable(tokens("Foo { fn f(x: &(for<'for> dyn 'a + Fn())); }"));
    unreadable(tokens("Foo { fn f() { impl A for <for<'a> dyn 'b + C>::D {} } }"));
    for ty in [
        "Box<for<'a> dyn Fn(&'a u8) + 'static>",
        "Box<dyn 'static + for<'a> Fn(&'a u8)>",
        "Box<dyn 'static + Fn()>",
        "for<'a> fn(&'a u8) -> Box<dyn 'static + Fn()>",
    ] {
        assert!(do_mock(tokens(&format!("Foo {{ fn f(&self, x: {}); }}", ty))).is_ok());
    }
}

fn with_literal(before: &str, literal: proc_macro2::Literal, after: &str) -> TokenStream {
    let mut out = tokens(before);
    out.extend(vec![proc_macro2::TokenTree::Literal(literal)]);
    out.extend(tokens(after));
    out
}

fn in_group(delimiter: proc_macro2::Delimiter, inner: TokenStream) -> TokenStream {
    let mut out = TokenStream::new();
    out.extend(vec![proc_macro2::TokenTree::Group(proc_macro2::Group::new(delimiter, inner))]);
    out
}

#[test]
fn literals_of_no_known_kind() {
    let literal = || proc_macro2::Literal::i32_unsuffixed(-1);
    let mut input = tokens("Foo");
    let array = in_group(proc_macro2::Delimiter::Bracket, with_literal("u8;", literal(), ""));
    let mut args = tokens("x:");
    args.extend(array);
    let mut method = tokens("fn f");
    method.extend(in_group(proc_macro2::Delimiter::Parenthesis, args));
    method.extend(tokens(";"));
    input.extend(in_group(proc_macro2::Delimiter::Brace, method));
    unreadable(input);
    let mut input = tokens("Foo {} trait A");
    let body = || in_group(
        proc_macro2::Delimiter::Brace,
        with_literal("const N: i32 =", literal(), ";"),
    );
    input.extend(body());
    unreadable(input);
    let mut input = tokens("Foo { const N: u8; } trait A");
    input.extend(body());
    let expected = tokens("compile_error! { \"Unsupported in this context\" }");
    assert_eq!(do_mock(input).unwrap().to_string(), expected.to_string());
}

/// The call of a macro, an attribute and what follows them.
#[test]
fn literals_that_are_not_read() {
    let literal = || with_literal("", proc_macro2::Literal::i32_unsuffixed(-1), "");
    let parens = || in_group(proc_macro2::Delimiter::Parenthesis, literal());
    let with_body = |before: &str, group: TokenStream, after: &str| {
        let mut body = tokens(before);
        body.extend(group);
        body.extend(tokens(after));
        let mut method = tokens("fn f(&self)");
        method.extend(in_group(proc_macro2::Delimiter::Brace, body));
        let mut input = tokens("Foo");
        input.extend(in_group(proc_macro2::Delimiter::Brace, method));
        input
    };
    let plain = do_mock(tokens("Foo { fn f(&self); }")).unwrap().to_string();
    let input = with_body("let x = a::m!", parens(), ";");
    assert_eq!(do_mock(input).unwrap().to_string(), plain);
    let mut attribute = tokens("a");
    attribute.extend(parens());
    let brackets = || in_group(proc_macro2::Delimiter::Bracket, attribute.clone());
    let input = with_body("#", brackets(), "let x = 3;");
    assert_eq!(do_mock(input).unwrap().to_string(), plain);
    unreadable(with_body("let x = !", parens(), ";"));
    unreadable(with_body("return !", parens(), ";"));
    unreadable(with_body("break 'a !", parens(), ";"));
    unreadable(with_body("m", brackets(), ";"));
    // The definition of a macro
    let in_braces = || in_group(proc_macro2::Delimiter::Brace, literal());
    let input = with_body("macro_rules! m", in_braces(), "let x = 3;");
    assert_eq!(do_mock(input).unwrap().to_string(), plain);
    let input = with_body("macro m", in_braces(), "let x = 3;");
    assert_eq!(do_mock(input).unwrap().to_string(), plain);
    let mut definition = parens();
    definition.extend(in_braces());
    let input = with_body("macro m", definition.clone(), "let x = 3;");
    assert_eq!(do_mock(input).unwrap().to_string(), plain);
    unreadable(with_body("macro m() {}", in_braces(), ""));
    unreadable(with_body("macro m {}", in_braces(), ""));
    unreadable(with_body("macro_rules! m {}", in_braces(), ""));
}

/// An error in the syntax comes before what is unreadable behind it.
#[test]
fn errors_before_unreadable_tokens() {
    let literal = || with_literal("", proc_macro2::Literal::i32_unsuffixed(-1), "");
    let braces = |inner| in_group(proc_macro2::Delimiter::Brace, inner);
    let described = |header: &str, items: &str, behind: &str| {
        let mut content = tokens(items);
        content.extend(braces(literal()));
        let mut input = tokens(header);
        input.extend(braces(content));
        input.extend(tokens(behind));
        input
    };
    let reported = |input: TokenStream, message: &str| {
        let expected = tokens(&format!("compile_error! {{ {:?} }}", message));
        assert_eq!(do_mock(input).unwrap().to_string(), expected.to_string());
    };
    let last = "fn g()";
    let items = format!("const N: u8; {}", last);
    let unsupported = "unexpected end of input, Unsupported in this context";
    reported(described("Foo", &items, ""), unsupported);
    reported(described("Foo<T: A>", &items, ""), unsupported);
    reported(described("Foo<T> where T: A", &items, ""), unsupported);
    let items = format!("fn f() {{ a b }} {}", last);
    reported(described("Foo<T>", &items, ""), "unexpected token");
    let input = described("Foo {} trait A { fn f() fn } trait B", last, "");
    reported(input, "expected curly braces or `;`");
    let items = format!("fn f(); {}", last);
    unreadable(described("Foo<T>", &items, "trait A {}"));
    unreadable(described("Foo {} trait A { fn f(); } trait B", last, ""));
}

/// What is unreadable counts up to where a list, a clause or an item has ended.
#[test]
fn ends_of_parts() {
    let with = |before: &str| with_literal(before, proc_macro2::Literal::i32_unsuffixed(-1), "");
    for before in ["fn f();", "fn f() {}", "<T> {}", "where T: A<B> {}", "trait A: B<C> {}", "{}"] {
        assert!(check_readable(&with(before)));
    }
    for before in [
        "", "fn f()", "<T>", "const N: A = B {}", "fn f() -> m! {}", "<T: A<{}", "<T: A<B, {}",
    ] {
        assert!(!check_readable(&with(before)));
    }
    let mut list = tokens("<T>");
    list.extend(in_group(proc_macro2::Delimiter::Brace, with("")));
    assert!(check_header(&list) && !check_readable(&list));
    assert!(!check_header(&with("<T: A<")));
    let mut input = in_group(proc_macro2::Delimiter::None, tokens("const N: A ="));
    input.extend(with("{}"));
    assert!(!check_readable(&input));
}

/// Outside a compiler every name is spelt as it is given.
#[test]
fn names_beyond_ascii() {
    for name in ["\u{e9}t\u{e9}", "e\u{301}"] {
        let code = format!("{} {{ fn {}(&self); }} trait T{} {{ fn {}(); }}", name, name, name, name);
        let found = do_mock(tokens(&code)).unwrap().to_string();
        assert!(found.contains(&format!("struct Mock{} ", name)));
        assert!(found.contains(&format!("fn expect_{} ", name)));
        assert!(found.contains(&format!("Mock{}_T{}_{}_expectation", name, name, name)));
    }
}

#[test]
fn kinds_of_literals() {
    for literal in [
        "\"a\"", "r\"a\"", "'a'", "b'a'", "b\"a\"", "br\"a\"", "0", "19u32", "0x9f", "0b01_1u32",
        "0o17u8", "1.5e3", "true", "false",
    ] {
        assert!(check_literal(literal));
    }
    for literal in ["", "-1", "c\"a\"", "b", "ba", "0b2", "0b1_03", "0o78", "truth", "// doc"] {
        assert!(!check_literal(literal));
    }
}

#[test]
fn identifiers() {
    assert!(check_ident("a"));
    assert!(check_ident("_"));
    assert!(check_ident("fn"));
    assert!(check_ident("x9_Z"));
    assert!(check_ident("\u{e9}t\u{e9}"));
    assert!(check_ident("e\u{301}"));
    assert!(!check_ident(""));
    assert!(!check_ident("9x"));
    assert!(!check_ident("a-b"));
    assert!(!check_ident("r#a"));
    assert!(!check_ident("\u{301}e"));
    assert!(!check_ident("a\u{20ac}"));
}

#[test]
fn messages() {
    assert_eq!(MockError::Variadic.message(), "MockAll does not yet support variadic functions");
    assert_eq!(MockError::Argument.message(), "Should be unreachable for normal Rust code");
    assert_eq!(
        MockError::LifetimeBounds.message(),
        "#automock does not yet support lifetime bounds on structs"
    );
    assert_eq!(
        MockError::ConstParameter.message(),
        "#automock does not yet support generic constants"
    );
    assert_eq!(
        MockError::GenericAssociatedType.message(),
        "Mockall does not yet support generic associated types"
    );
    assert_eq!(
        MockError::OpenAssociatedType.message(),
        "Associated types must be made concrete for mocking."
    );
    assert_eq!(
        MockError::TraitItem.message(),
        "This impl item is not yet supported by MockAll"
    );
    assert_eq!(MockError::Unreadable.message(), "These tokens cannot be parsed");
    assert_eq!(
        MockError::Name.message(),
        "A mocked name must be an identifier that is not raw"
    );
}
