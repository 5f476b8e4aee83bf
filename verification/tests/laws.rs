//! What holds of generated code as a whole, on examples.

use mockall_derive::mock::do_mock;
use proc_macro2::{TokenStream, TokenTree};
use std::str::FromStr;

fn generated(code: &str) -> String {
    do_mock(TokenStream::from_str(code).unwrap()).unwrap().to_string()
}

fn text(code: &str) -> String {
    TokenStream::from_str(code).unwrap().to_string()
}

/// The names of the fields in the braces behind a word.
fn fields(code: &str, word: &str) -> Vec<String> {
    let mut names = Vec::new();
    let mut found = false;
    for tt in TokenStream::from_str(code).unwrap() {
        match tt {
            TokenTree::Ident(ref ident) if ident == word => found = true,
            TokenTree::Group(ref group) if found => {
                let mut start = true;
                for tt in group.stream() {
                    match tt {
                        TokenTree::Ident(ref ident) if start => {
                            names.push(ident.to_string());
                            start = false;
                        }
                        TokenTree::Punct(ref punct) if punct.as_char() == ',' => start = true,
                        _ => {}
                    }
                }
                return names;
            }
            _ => {}
        }
    }
    names
}

#[test]
fn names_of_a_trait_agree() {
    let code = generated("X {} trait T { fn m(&self); fn s(); }");
    // The structure, the module and the static are declared under the names that are used.
    assert!(code.contains(&text("T_expectations: MockX_T,")));
    assert!(code.contains("struct MockX_T"));
    assert!(code.contains("mod __mock_X_T"));
    assert!(code.contains(&text("& mut __mock_X_T::m::Expectation")));
    assert!(code.contains(&text("static ref MockX_T_s_expectation")));
    assert!(code.contains(&text("{ MockX_T_s_expectation.lock().unwrap().call() }")));
    assert!(code.contains(&text("{ self.T_expectations.m.call() }")));
}

#[test]
fn documentation_leaves_no_trace() {
    let documented = "/// a\n #[inline] /// b\n fn m(&self);";
    let plain = "#[inline] fn m(&self);";
    assert_eq!(
        generated(&format!("X {{ {} }} trait T {{ {} }}", documented, documented)),
        generated(&format!("X {{ {} }} trait T {{ {} }}", plain, plain)),
    );
}

#[test]
fn attributes_stay_in_order() {
    let code = generated("X { #[a] /// b\n #[c] #[d(e)] fn m(&self); }");
    assert!(code.contains(&text("#[a] #[c] #[d(e)] pub fn m(&self)")));
}

#[test]
fn mut_leaves_no_trace_in_methods() {
    let code = generated("X { fn m(mut self, mut a: u8); }");
    assert!(code.contains(&text("pub fn m(self, a: u8) { self.m.call(a) }")));
}

#[test]
fn every_method_and_trait_is_checkpointed() {
    let code = generated("X { fn a(&self); fn b(); fn c(&self); } trait T {} trait U {}");
    assert!(code.contains(&text(
        "pub fn checkpoint(&mut self) {
            self.T_expectations.checkpoint();
            self.U_expectations.checkpoint();
            { self.a.checkpoint(); }
            { MockX_b_expectation.lock().unwrap().checkpoint(); }
            { self.c.checkpoint(); }
        }"
    )));
}

#[test]
fn new_is_there_once() {
    let added = text("pub fn new() -> Self { Self::default() }");
    for (code, times) in [
        ("X {}", 1),
        ("X { fn newer(&self); }", 1),
        ("X {} trait T { fn new() -> Self; }", 1),
        ("X { fn new() -> Self; }", 0),
        ("X { fn new(&self); } trait T {}", 0),
    ] {
        assert_eq!(generated(code).matches(&added).count(), times);
    }
}

#[test]
fn every_field_has_a_first_value() {
    let code = generated("X<U> { fn a(&self); fn b(); fn c(self); } trait T {}");
    let declared = fields(&code, "MockX");
    assert_eq!(declared, ["T_expectations", "a", "c", "_t0"]);
    let start = code.find("Self { T_expectations").unwrap();
    let initialised = fields(&code[start..code[start..].find('}').unwrap() + start + 1], "Self");
    assert_eq!(initialised, declared);
}

#[test]
fn expectation_parameters_are_bracketed() {
    let code = generated("X { fn a(&self); fn b<T>(&self); fn c<>(&self); }");
    assert!(code.contains(&text("fn a < > (&self) -> ()")));
    assert!(code.contains(&text("fn b < T > (&self) -> ()")));
    assert!(code.contains(&text("fn c < > (&self) -> ()")));
}

/// Not even a body that does not print as it was read.
#[test]
fn bodies_leave_no_trace() {
    let nested = "{ fn g(x: ...) {} let _ = 3; }";
    assert_eq!(
        generated(&format!("X {{ fn m(&self) {} }} trait T {{ fn n() {} }}", nested, nested)),
        generated("X { fn m(&self); } trait T { fn n(); }"),
    );
    let code = generated("X { fn m(&self, a: [u8; { fn g(x: ...) {} 3 }]); }");
    assert!(code.contains(&text("self.m.call(a)")));
}

/// An item that is no method is reported after any method.
#[test]
fn own_constants_are_unsupported() {
    assert_eq!(
        generated("X { fn m(&self) { fn g(x: ...) {} } const N: u8; } trait T {}"),
        text("compile_error! { \"Unsupported in this context\" }"),
    );
}

#[test]
fn statics_of_a_trait_agree() {
    let code = generated("X {} trait T { fn a(&self); fn s(); const N: u8; fn t<U>(); }");
    for name in ["s", "t"] {
        let name = format!("MockX_T_{}_expectation", name);
        assert_eq!(code.matches(&format!("static ref {} ", name)).count(), 1);
        assert_eq!(code.matches(&format!("{} . lock ( ) . unwrap ( )", name)).count(), 3);
    }
}
