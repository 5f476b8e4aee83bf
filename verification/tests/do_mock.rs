//! What `do_mock` generates for whole descriptions.

use mockall_derive::mock::do_mock;
use proc_macro2::TokenStream;
use std::str::FromStr;

fn check(desired: &str, code: &str) {
    let ts = TokenStream::from_str(code).unwrap();
    let output = do_mock(ts).unwrap().to_string();
    // Let proc_macro2 reformat the whitespace in the expected string
    let expected = TokenStream::from_str(desired).unwrap().to_string();
    assert_eq!(expected, output);
}

/// Mocking a struct with a generic method with mock!{}
#[test]
fn generic_method() {
    let desired = r#"
        #[allow(non_snake_case)]
        mod __mock_Foo {
            ::mockall::expectation! {
                fn foo<T>(&self, t:T) -> () {
                    let (p1: &T) = (&t);
                }
            }
        }
        struct MockFoo {
            foo: __mock_Foo::foo::GenericExpectations,
        }
        impl ::std::default::Default for MockFoo {
            fn default() -> Self {
                Self {
                    foo: __mock_Foo::foo::GenericExpectations::default(),
                }
            }
        }
        impl MockFoo {
            pub fn foo<T: 'static>(&self, t: T) {
                self.foo.call:: <T>(t)
            }
            pub fn expect_foo<T: 'static>(&mut self)
                -> &mut __mock_Foo::foo::Expectation<T>
            {
                self.foo.expect:: <T>()
            }
            pub fn checkpoint(&mut self) {
                { self.foo.checkpoint(); }
            }
            pub fn new() -> Self {
                Self::default()
            }
        }
    "#;
    let code = r#"
        Foo {
            fn foo<T: 'static>(&self, t: T);
        }"#;
    check(desired, code);
}

/// Mocking a generic struct that's defined in another crate
#[test]
fn generic_struct() {
    let desired = r#"
        #[allow(non_snake_case)]
        mod __mock_Foo {
            ::mockall::expectation!{
                fn foo< >(&self, x: u32) -> i64 {
                    let (p1: &u32) = (&x);
                }
            }
        }
        struct MockFoo<T: Clone> {
            foo: __mock_Foo::foo::Expectations,
            _t0: ::std::marker::PhantomData<T> ,
        }
        impl<T: Clone> ::std::default::Default for MockFoo<T> {
            fn default() -> Self {
                Self {
                    foo: __mock_Foo::foo::Expectations::default(),
                    _t0: ::std::marker::PhantomData,
                }
            }
        }
        impl<T: Clone> MockFoo<T> {
            pub fn foo(&self, x: u32) -> i64 {
                self.foo.call(x)
            }
            pub fn expect_foo(&mut self)
                -> &mut __mock_Foo::foo::Expectation
            {
                self.foo.expect()
            }
            pub fn checkpoint(&mut self) {
                { self.foo.checkpoint(); }
            }
            pub fn new() -> Self {
                Self::default()
            }
        }
    "#;
    let code = r#"
        Foo<T: Clone> {
            fn foo(&self, x: u32) -> i64;
        }
    "#;
    check(desired, code);
}

/// "impl trait" in method return types should work.
#[test]
fn impl_trait() {
    let desired = r#"
        #[allow(non_snake_case)]
        mod __mock_Foo {
            ::mockall::expectation! {
                fn foo< >(&self) -> Box<dyn Debug + Send> {
                    let () = ();
                }
            }
        }
        struct MockFoo {
            foo: __mock_Foo::foo::Expectations,
        }
        impl ::std::default::Default for MockFoo {
            fn default() -> Self {
                Self {
                    foo: __mock_Foo::foo::Expectations::default(),
                }
            }
        }
        impl MockFoo {
            pub fn foo(&self) -> impl Debug + Send {
                self.foo.call()
            }
            pub fn expect_foo(&mut self)
                -> &mut __mock_Foo::foo::Expectation
            {
                self.foo.expect()
            }
            pub fn checkpoint(&mut self) {
                { self.foo.checkpoint(); }
            }
            pub fn new() -> Self {
                Self::default()
            }
        }
    "#;
    let code = r#"
        Foo {
            fn foo(&self) -> impl Debug + Send;
        }
    "#;
    check(desired, code);
}

/// Structs or traits that have a "new" method shouldn't have a "new" method
/// added to the mock object
#[test]
fn new_method() {
    let desired = r#"
        #[allow(non_snake_case)]
        mod __mock_Foo {
            ::mockall::expectation!{
                fn foo< >(&self) -> u32 { let () = (); }
            }
            ::mockall::expectation!{
                fn new< >(x: u32) -> Self { let (p0: &u32) = (&x); }
            }
        }
        struct MockFoo {
            foo: __mock_Foo::foo::Expectations,
        }
        ::mockall::lazy_static!{
            static ref MockFoo_new_expectation:
                ::std::sync::Mutex< __mock_Foo::new::Expectations>
                = ::std::sync::Mutex::new(
                    __mock_Foo::new::Expectations::new()
                );
        }
        impl ::std::default::Default for MockFoo {
            fn default() -> Self {
                Self {
                    foo: __mock_Foo::foo::Expectations::default(),
                }
            }
        }
        impl MockFoo {
            pub fn foo(&self) -> u32 {
                self.foo.call()
            }
            pub fn expect_foo(&mut self)
                -> &mut __mock_Foo::foo::Expectation
            {
                self.foo.expect()
            }
            pub fn new(x: u32) -> Self {
                MockFoo_new_expectation.lock().unwrap().call(x)
            }
            pub fn expect_new< 'guard>()
                -> __mock_Foo::new::ExpectationGuard< 'guard>
            {
                __mock_Foo::new::ExpectationGuard::new(
                    MockFoo_new_expectation.lock().unwrap()
                )
            }
            pub fn checkpoint(&mut self) {
                { self.foo.checkpoint(); }
                { MockFoo_new_expectation.lock().unwrap().checkpoint(); }
            }
        }
    "#;
    let code = r#"
        Foo {
            fn foo(&self) -> u32;
            fn new(x: u32) -> Self;
        }
    "#;
    check(desired, code);
}

#[test]
fn reference_arguments() {
    let desired = r#"
    #[allow(non_snake_case)]
    mod __mock_Foo {
        ::mockall::expectation! {
            fn foo< >(&self, x: &u32) -> () {
                let (p1: &u32) = (x);
            }
        }
        ::mockall::expectation! {
            fn bar< >(&self, y: & 'static u32) -> () {
                let (p1: & 'static u32) = (y);
            }
        }
    }
    struct MockFoo {
        foo: __mock_Foo::foo::Expectations,
        bar: __mock_Foo::bar::Expectations,
    }
    impl::std::default::Default for MockFoo {
        fn default() -> Self {
            Self {
                foo: __mock_Foo::foo::Expectations::default(),
                bar: __mock_Foo::bar::Expectations::default(),
            }
        }
    }
    impl MockFoo {
        pub fn foo(&self, x: &u32) {
            self.foo.call(x)
        }
        pub fn expect_foo(&mut self) -> &mut __mock_Foo::foo::Expectation
        {
            self.foo.expect()
        }
        pub fn bar(&self, y: & 'static u32) {
            self.bar.call(y)
        }
        pub fn expect_bar(&mut self) -> &mut __mock_Foo::bar::Expectation
        {
            self.bar.expect()
        }
        pub fn checkpoint(&mut self) {
            { self.foo.checkpoint(); }
            { self.bar.checkpoint(); }
        }
        pub fn new() -> Self {
            Self::default()
        }
    }"#;

    let code = r#"
        Foo {
            fn foo(&self, x: &u32);
            fn bar(&self, y: &'static u32);
        }
    "#;
    check(desired, code);
}

#[test]
fn reference_return() {
    let desired = r#"
    #[allow(non_snake_case)]
    mod __mock_Foo {
        ::mockall::expectation! {
            fn foo< >(&self) -> &u32 {
                let () =();
            }
        }
    }
    struct MockFoo {
        foo: __mock_Foo::foo::Expectations ,
    }
    impl ::std::default::Default for MockFoo {
        fn default() -> Self {
            Self {
                foo: __mock_Foo::foo::Expectations::default(),
            }
        }
    }
    impl MockFoo {
        pub fn foo(&self) -> &u32 {
            self.foo.call()
        }
        pub fn expect_foo(&mut self)
            -> &mut __mock_Foo::foo::Expectation
        {
            self.foo.expect()
        }
        pub fn checkpoint(&mut self) {
            { self.foo.checkpoint(); }
        }
        pub fn new() -> Self {
            Self::default()
        }
    }"#;

    let code = r#"
        Foo {
            fn foo(&self) -> &u32;
        }
    "#;
    check(desired, code);
}

#[test]
fn reference_return_from_trait() {
    let desired = r#"
    #[allow(non_snake_case)]
    mod __mock_X {}
    struct MockX {
        Foo_expectations: MockX_Foo ,
    }
    impl ::std::default::Default for MockX {
        fn default() -> Self {
            Self {
                Foo_expectations: MockX_Foo::default(),
            }
        }
    }
    #[allow(non_snake_case)]
    mod __mock_X_Foo {
        ::mockall::expectation!{
            fn foo< >(&self) -> &u32 {
                let () = ();
            }
        }
    }
    struct MockX_Foo {
        foo: __mock_X_Foo::foo::Expectations,
    }
    impl ::std::default::Default for MockX_Foo {
        fn default() -> Self {
            Self {
                foo: __mock_X_Foo::foo::Expectations::default(),
            }
        }
    }
    impl MockX_Foo {
        fn checkpoint(&mut self) {
            { self.foo.checkpoint(); }
        }
    }
    impl MockX {
        pub fn checkpoint(&mut self) {
            self.Foo_expectations.checkpoint();
        }
        pub fn new() -> Self {
            Self::default()
        }
    }
    impl Foo for MockX {
        fn foo(&self) -> &u32 {
            self.Foo_expectations.foo.call()
        }
    }
    impl MockX {
        pub fn expect_foo(&mut self)
            -> &mut __mock_X_Foo::foo::Expectation
        {
            self.Foo_expectations.foo.expect()
        }
    }"#;

    let code = r#"
        X {}
        trait Foo {
            fn foo(&self) -> &u32;
        }
    "#;
    check(desired, code);
}

#[test]
fn ref_mut_return() {
    let desired = r#"
    #[allow(non_snake_case)]
    mod __mock_Foo {
        ::mockall::expectation!{
            fn foo< >(&mut self) -> &mut u32 {
                let () = ();
            }
        }
    }
    struct MockFoo {
        foo: __mock_Foo::foo::Expectations,
    }
    impl ::std::default::Default for MockFoo {
        fn default() -> Self {
            Self {
                foo: __mock_Foo::foo::Expectations::default(),
            }
        }
    }
    impl MockFoo {
        pub fn foo(&mut self) -> &mut u32 {
            self.foo.call_mut()
        }
        pub fn expect_foo(&mut self)
            -> &mut __mock_Foo::foo::Expectation
        {
            self.foo.expect()
        }
        pub fn checkpoint(&mut self) {
            { self.foo.checkpoint(); }
        }
        pub fn new() -> Self {
            Self::default()
        }
    }"#;

    let code = r#"
        Foo {
            fn foo(&mut self) -> &mut u32;
        }
    "#;
    check(desired, code);
}

#[test]
fn ref_str_return() {
    let desired = r#"
    #[allow(non_snake_case)]
    mod __mock_Foo {
        ::mockall::expectation!{
            fn foo< >(&self) -> & ::std::string::String {
                let () = ();
            }
        }
    }
    struct MockFoo {
        foo: __mock_Foo::foo::Expectations,
    }
    impl ::std::default::Default for MockFoo {
        fn default() -> Self {
            Self {
                foo: __mock_Foo::foo::Expectations::default(),
            }
        }
    }
    impl MockFoo {
        pub fn foo(&self) -> &str {
            self.foo.call()
        }
        pub fn expect_foo(&mut self)
            -> &mut __mock_Foo::foo::Expectation
        {
            self.foo.expect()
        }
        pub fn checkpoint(&mut self) {
            { self.foo.checkpoint(); }
        }
        pub fn new() -> Self {
            Self::default()
        }
    }"#;

    let code = r#"
        Foo {
            fn foo(&self) -> &str;
        }
    "#;
    check(desired, code);
}

#[test]
fn static_method() {
    let desired = r#"
        #[allow(non_snake_case)]
        mod __mock_Foo {
            ::mockall::expectation!{
                fn bar< >(x: u32) -> u64 {
                    let (p0: &u32) = (&x);
                }
            }
        }
        struct MockFoo {}
        ::mockall::lazy_static!{
            static ref MockFoo_bar_expectation:
                ::std::sync::Mutex< __mock_Foo::bar::Expectations >
            = ::std::sync::Mutex::new(__mock_Foo::bar::Expectations::new());
        }
        impl ::std::default::Default for MockFoo {
            fn default() -> Self {
                Self { }
            }
        }
        impl MockFoo {
            pub fn bar(x: u32) -> u64 {
                MockFoo_bar_expectation.lock().unwrap().call(x)
            }
            pub fn expect_bar< 'guard>()
                -> __mock_Foo::bar::ExpectationGuard< 'guard>
            {
                __mock_Foo::bar::ExpectationGuard::new(
                    MockFoo_bar_expectation.lock().unwrap()
                )
            }
            pub fn checkpoint(&mut self) {
                { MockFoo_bar_expectation.lock().unwrap().checkpoint(); }
            }
            pub fn new() -> Self {
                Self::default()
            }
        }
    "#;
    let code = r#"
        Foo {
            fn bar(x: u32) -> u64;
        }
    "#;
    check(desired, code);
}

/// Mocking a struct that's defined in another crate with mock!
#[test]
fn struct_() {
    let desired = r#"
        #[allow(non_snake_case)]
        mod __mock_Foo {
            ::mockall::expectation!{
                fn foo< >(&self, x: u32) -> i64 { let (p1: &u32) = (&x);}
            }
            ::mockall::expectation!{
                fn bar< >(&self, y: u64) -> i32 { let (p1: &u64) = (&y);}
            }
        }
        struct MockFoo {
            foo: __mock_Foo::foo::Expectations,
            bar: __mock_Foo::bar::Expectations,
        }
        impl ::std::default::Default for MockFoo {
            fn default() -> Self {
                Self {
                    foo: __mock_Foo::foo::Expectations::default(),
                    bar: __mock_Foo::bar::Expectations::default(),
                }
            }
        }
        impl MockFoo {
            pub fn foo(&self, x: u32) -> i64 {
                self.foo.call(x)
            }
            pub fn expect_foo(&mut self)
                -> &mut __mock_Foo::foo::Expectation
            {
                self.foo.expect()
            }
            pub fn bar(&self, y: u64) -> i32 {
                self.bar.call(y)
            }
            pub fn expect_bar(&mut self)
                -> &mut __mock_Foo::bar::Expectation
            {
                self.bar.expect()
            }
            pub fn checkpoint(&mut self) {
                { self.foo.checkpoint(); }
                { self.bar.checkpoint(); }
            }
            pub fn new() -> Self {
                Self::default()
            }
        }
    "#;
    let code = r#"
        Foo {
            fn foo(&self, x: u32) -> i64;
            fn bar(&self, y: u64) -> i32;
        }
    "#;
    check(desired, code);
}

/// Mocking a struct that's defined in another crate, and has a trait
/// implementation
#[test]
fn struct_with_trait() {
    let desired = r#"
        #[allow(non_snake_case)]
        mod __mock_Bar {}
        struct MockBar {
            Foo_expectations: MockBar_Foo,
        }
        impl ::std::default::Default for MockBar {
            fn default() -> Self {
                Self {
                    Foo_expectations: MockBar_Foo::default(),
                }
            }
        }
        #[allow(non_snake_case)]
        mod __mock_Bar_Foo {
            ::mockall::expectation! {
                fn foo< >(&self, x: u32) -> i64 {
                    let (p1: &u32) = (&x);
                }
            }
        }
        struct MockBar_Foo {
            foo: __mock_Bar_Foo::foo::Expectations,
        }
        impl ::std::default::Default for MockBar_Foo {
            fn default() -> Self {
                Self {
                    foo: __mock_Bar_Foo::foo::Expectations::default(),
                }
            }
        }
        impl MockBar_Foo  {
            fn checkpoint(&mut self) {
                { self.foo.checkpoint(); }
            }
        }
        impl MockBar {
            pub fn checkpoint(&mut self) {
                self.Foo_expectations.checkpoint();
            }
            pub fn new() -> Self {
                Self::default()
            }
        }
        impl Foo for MockBar {
            fn foo(&self, x: u32) -> i64 {
                self.Foo_expectations.foo.call(x)
            }
        }
        impl MockBar {
            pub fn expect_foo(&mut self)
                -> &mut __mock_Bar_Foo::foo::Expectation
            {
                self.Foo_expectations.foo.expect()
            }
        }
    "#;
    let code = r#"
        Bar {}
        trait Foo {
            fn foo(&self, x: u32) -> i64;
        }
    "#;
    check(desired, code);
}

/// The result of a trait's method may be `Self`.
#[test]
fn trait_method_that_returns_self() {
    let desired = r#"
        #[allow(non_snake_case)]
        mod __mock_A {}
        struct MockA {
            Clone_expectations: MockA_Clone,
        }
        impl ::std::default::Default for MockA {
            fn default() -> Self {
                Self {
                    Clone_expectations: MockA_Clone::default(),
                }
            }
        }
        #[allow(non_snake_case)]
        mod __mock_A_Clone {
            ::mockall::expectation! {
                fn clone< >(&self) -> Self {
                    let () = ();
                }
            }
        }
        struct MockA_Clone {
            clone: __mock_A_Clone::clone::Expectations,
        }
        impl ::std::default::Default for MockA_Clone {
            fn default() -> Self {
                Self {
                    clone: __mock_A_Clone::clone::Expectations::default(),
                }
            }
        }
        impl MockA_Clone {
            fn checkpoint(&mut self) {
                { self.clone.checkpoint(); }
            }
        }
        impl MockA {
            pub fn checkpoint(&mut self) {
                self.Clone_expectations.checkpoint();
            }
            pub fn new() -> Self {
                Self::default()
            }
        }
        impl Clone for MockA {
            fn clone(&self) -> Self {
                self.Clone_expectations.clone.call()
            }
        }
        impl MockA {
            pub fn expect_clone(&mut self)
                -> &mut __mock_A_Clone::clone::Expectation
            {
                self.Clone_expectations.clone.expect()
            }
        }"#;
    let code = r#"
        A {}
        trait Clone {
            fn clone(&self) -> Self;
        }"#;
    check(desired, code);
}

/// The guard's lifetime comes before the other generic parameters.
#[test]
fn static_method_with_type_parameter() {
    let desired = r#"
        #[allow(non_snake_case)]
        mod __mock_Foo {
            ::mockall::expectation! {
                fn bar<T>(x: T) -> () {
                    let (p0: &T) = (&x);
                }
            }
        }
        struct MockFoo {}
        ::mockall::lazy_static! {
            static ref MockFoo_bar_expectation:
                ::std::sync::Mutex< __mock_Foo::bar::GenericExpectations >
            = ::std::sync::Mutex::new(__mock_Foo::bar::GenericExpectations::new());
        }
        impl ::std::default::Default for MockFoo {
            fn default() -> Self {
                Self {}
            }
        }
        impl MockFoo {
            pub fn bar<T>(x: T) {
                MockFoo_bar_expectation.lock().unwrap().call:: <T>(x)
            }
            pub fn expect_bar< 'guard, T, >()
                -> __mock_Foo::bar::GenericExpectationGuard< 'guard>
            {
                __mock_Foo::bar::GenericExpectationGuard::new(
                    MockFoo_bar_expectation.lock().unwrap()
                )
            }
            pub fn checkpoint(&mut self) {
                { MockFoo_bar_expectation.lock().unwrap().checkpoint(); }
            }
            pub fn new() -> Self {
                Self::default()
            }
        }"#;
    let code = r#"
        Foo {
            fn bar<T>(x: T);
        }"#;
    check(desired, code);
}

/// A generic trait on a structure with other generic parameters.
#[test]
fn two_lists_of_generic_parameters() {
    let desired = r#"
        #[allow(non_snake_case)]
        mod __mock_ExternalStruct {}
        struct MockExternalStruct<T: 'static, Z: 'static> {
            Foo_expectations: MockExternalStruct_Foo<T, Z> ,
            _t0: ::std::marker::PhantomData<T> ,
            _t1: ::std::marker::PhantomData<Z> ,
        }
        impl<T: 'static, Z: 'static>
        ::std::default::Default for MockExternalStruct<T, Z> {
            fn default() -> Self {
                Self {
                    Foo_expectations: MockExternalStruct_Foo::default(),
                    _t0: ::std::marker::PhantomData,
                    _t1: ::std::marker::PhantomData,
                }
            }
        }
        #[allow(non_snake_case)]
        mod __mock_ExternalStruct_Foo {
            ::mockall::expectation! {
                fn foo< >(&self, x: T) -> T {
                    let (p1: &T) = (&x);
                }
            }
        }
        struct MockExternalStruct_Foo<T: 'static, Z: 'static> {
            foo: __mock_ExternalStruct_Foo::foo::Expectations,
            _t0: ::std::marker::PhantomData<T> ,
            _t1: ::std::marker::PhantomData<Z> ,
        }
        impl<T: 'static, Z: 'static>
        ::std::default::Default for MockExternalStruct_Foo<T, Z> {
            fn default() -> Self {
                Self {
                    foo: __mock_ExternalStruct_Foo::foo::Expectations::default(),
                    _t0: ::std::marker::PhantomData,
                    _t1: ::std::marker::PhantomData,
                }
            }
        }
        impl<T: 'static, Z: 'static> MockExternalStruct_Foo<T, Z> {
            fn checkpoint(&mut self) {
                { self.foo.checkpoint(); }
            }
        }
        impl<T: 'static, Z: 'static> MockExternalStruct<T, Z> {
            pub fn checkpoint(&mut self) {
                self.Foo_expectations.checkpoint();
            }
            pub fn new() -> Self {
                Self::default()
            }
        }
        impl<T: 'static, Z: 'static> Foo<T> for MockExternalStruct<T, Z> {
            fn foo(&self, x: T) -> T {
                self.Foo_expectations.foo.call(x)
            }
        }
        impl<T: 'static, Z: 'static> MockExternalStruct<T, Z> {
            pub fn expect_foo(&mut self)
                -> &mut __mock_ExternalStruct_Foo::foo::Expectation
            {
                self.Foo_expectations.foo.expect()
            }
        }"#;
    let code = r#"
        ExternalStruct<T: 'static, Z: 'static> {}
        trait Foo<T: 'static> {
            fn foo(&self, x: T) -> T;
        }"#;
    check(desired, code);
}

/// An associated type stands in the implementation of its trait.
#[test]
fn associated_type_is_implemented() {
    let desired = r#"
        #[allow(non_snake_case)]
        mod __mock_Foo {}
        struct MockFoo<T> {
            Iterator_expectations: MockFoo_Iterator<T> ,
            _t0: ::std::marker::PhantomData<T> ,
        }
        impl<T> ::std::default::Default for MockFoo<T> {
            fn default() -> Self {
                Self {
                    Iterator_expectations: MockFoo_Iterator::default(),
                    _t0: ::std::marker::PhantomData,
                }
            }
        }
        #[allow(non_snake_case)]
        mod __mock_Foo_Iterator {
            ::mockall::expectation! {
                fn next< >(&mut self) -> Option<T> {
                    let () = ();
                }
            }
        }
        struct MockFoo_Iterator<T> {
            next: __mock_Foo_Iterator::next::Expectations,
            _t0: ::std::marker::PhantomData<T> ,
        }
        impl<T> ::std::default::Default for MockFoo_Iterator<T> {
            fn default() -> Self {
                Self {
                    next: __mock_Foo_Iterator::next::Expectations::default(),
                    _t0: ::std::marker::PhantomData,
                }
            }
        }
        impl<T> MockFoo_Iterator<T> {
            fn checkpoint(&mut self) {
                { self.next.checkpoint(); }
            }
        }
        impl<T> MockFoo<T> {
            pub fn checkpoint(&mut self) {
                self.Iterator_expectations.checkpoint();
            }
            pub fn new() -> Self {
                Self::default()
            }
        }
        impl<T> Iterator for MockFoo<T> {
            type Item = T;
            fn next(&mut self) -> Option<T> {
                self.Iterator_expectations.next.call()
            }
        }
        impl<T> MockFoo<T> {
            pub fn expect_next(&mut self)
                -> &mut __mock_Foo_Iterator::next::Expectation
            {
                self.Iterator_expectations.next.expect()
            }
        }"#;
    let code = r#"
        Foo<T> {}
        trait Iterator {
            type Item=T;

            fn next(&mut self) -> Option<T>;
        }"#;
    check(desired, code);
}

/// Each of two traits has a structure of its own.
#[test]
fn two_traits() {
    let desired = r#"
        #[allow(non_snake_case)]
        mod __mock_ExternalStruct {}
        struct MockExternalStruct {
            A_expectations: MockExternalStruct_A,
            B_expectations: MockExternalStruct_B,
        }
        impl ::std::default::Default for MockExternalStruct {
            fn default() -> Self {
                Self {
                    A_expectations: MockExternalStruct_A::default(),
                    B_expectations: MockExternalStruct_B::default(),
                }
            }
        }
        #[allow(non_snake_case)]
        mod __mock_ExternalStruct_A {
            ::mockall::expectation! {
                fn foo< >(&self) -> () {
                    let () = ();
                }
            }
        }
        struct MockExternalStruct_A {
            foo: __mock_ExternalStruct_A::foo::Expectations,
        }
        impl ::std::default::Default for MockExternalStruct_A {
            fn default() -> Self {
                Self {
                    foo: __mock_ExternalStruct_A::foo::Expectations::default(),
                }
            }
        }
        impl MockExternalStruct_A {
            fn checkpoint(&mut self) {
                { self.foo.checkpoint(); }
            }
        }
        #[allow(non_snake_case)]
        mod __mock_ExternalStruct_B {
            ::mockall::expectation! {
                fn bar< >(&self) -> () {
                    let () = ();
                }
            }
        }
        struct MockExternalStruct_B {
            bar: __mock_ExternalStruct_B::bar::Expectations,
        }
        impl ::std::default::Default for MockExternalStruct_B {
            fn default() -> Self {
                Self {
                    bar: __mock_ExternalStruct_B::bar::Expectations::default(),
                }
            }
        }
        impl MockExternalStruct_B {
            fn checkpoint(&mut self) {
                { self.bar.checkpoint(); }
            }
        }
        impl MockExternalStruct {
            pub fn checkpoint(&mut self) {
                self.A_expectations.checkpoint();
                self.B_expectations.checkpoint();
            }
            pub fn new() -> Self {
                Self::default()
            }
        }
        impl A for MockExternalStruct {
            fn foo(&self) {
                self.A_expectations.foo.call()
            }
        }
        impl MockExternalStruct {
            pub fn expect_foo(&mut self)
                -> &mut __mock_ExternalStruct_A::foo::Expectation
            {
                self.A_expectations.foo.expect()
            }
        }
        impl B for MockExternalStruct {
            fn bar(&self) {
                self.B_expectations.bar.call()
            }
        }
        impl MockExternalStruct {
            pub fn expect_bar(&mut self)
                -> &mut __mock_ExternalStruct_B::bar::Expectation
            {
                self.B_expectations.bar.expect()
            }
        }"#;
    let code = r#"
        ExternalStruct {}
        trait A {
            fn foo(&self);
        }
        trait B {
            fn bar(&self);
        }"#;
    check(desired, code);
}

/// The static for a method of a trait is named after the structure and the trait.
#[test]
fn static_method_of_a_trait() {
    let desired = r#"
        #[allow(non_snake_case)]
        mod __mock_Foo {}
        struct MockFoo {
            Bar_expectations: MockFoo_Bar,
        }
        impl ::std::default::Default for MockFoo {
            fn default() -> Self {
                Self {
                    Bar_expectations: MockFoo_Bar::default(),
                }
            }
        }
        #[allow(non_snake_case)]
        mod __mock_Foo_Bar {
            ::mockall::expectation! {
                fn baz< >(x: u32) -> u64 {
                    let (p0: &u32) = (&x);
                }
            }
        }
        struct MockFoo_Bar {}
        ::mockall::lazy_static! {
            static ref MockFoo_Bar_baz_expectation:
                ::std::sync::Mutex< __mock_Foo_Bar::baz::Expectations >
            = ::std::sync::Mutex::new(__mock_Foo_Bar::baz::Expectations::new());
        }
        impl ::std::default::Default for MockFoo_Bar {
            fn default() -> Self {
                Self {}
            }
        }
        impl MockFoo_Bar {
            fn checkpoint(&mut self) {
                { MockFoo_Bar_baz_expectation.lock().unwrap().checkpoint(); }
            }
        }
        impl MockFoo {
            pub fn checkpoint(&mut self) {
                self.Bar_expectations.checkpoint();
            }
            pub fn new() -> Self {
                Self::default()
            }
        }
        impl Bar for MockFoo {
            fn baz(x: u32) -> u64 {
                MockFoo_Bar_baz_expectation.lock().unwrap().call(x)
            }
        }
        impl MockFoo {
            pub fn expect_baz< 'guard>()
                -> __mock_Foo_Bar::baz::ExpectationGuard< 'guard>
            {
                __mock_Foo_Bar::baz::ExpectationGuard::new(
                    MockFoo_Bar_baz_expectation.lock().unwrap()
                )
            }
        }"#;
    let code = r#"
        Foo {}
        trait Bar {
            fn baz(x: u32) -> u64;
        }"#;
    check(desired, code);
}

/// The `where` clause of a structure goes wherever its generic parameters are declared.
#[test]
fn where_clause_of_structure_is_kept() {
    let desired = r#"
        #[allow(non_snake_case)]
        mod __mock_Foo {
            ::mockall::expectation! {
                fn foo< >(&self) -> () {
                    let () = ();
                }
            }
        }
        struct MockFoo<T> where T: Clone {
            Bar_expectations: MockFoo_Bar<T> ,
            foo: __mock_Foo::foo::Expectations,
            _t0: ::std::marker::PhantomData<T> ,
        }
        impl<T> ::std::default::Default for MockFoo<T> where T: Clone {
            fn default() -> Self {
                Self {
                    Bar_expectations: MockFoo_Bar::default(),
                    foo: __mock_Foo::foo::Expectations::default(),
                    _t0: ::std::marker::PhantomData,
                }
            }
        }
        #[allow(non_snake_case)]
        mod __mock_Foo_Bar {
            ::mockall::expectation! {
                fn bar< >(&self) -> () {
                    let () = ();
                }
            }
        }
        struct MockFoo_Bar<T> where T: Clone {
            bar: __mock_Foo_Bar::bar::Expectations,
            _t0: ::std::marker::PhantomData<T> ,
        }
        impl<T> ::std::default::Default for MockFoo_Bar<T> where T: Clone {
            fn default() -> Self {
                Self {
                    bar: __mock_Foo_Bar::bar::Expectations::default(),
                    _t0: ::std::marker::PhantomData,
                }
            }
        }
        impl<T> MockFoo_Bar<T> where T: Clone {
            fn checkpoint(&mut self) {
                { self.bar.checkpoint(); }
            }
        }
        impl<T> MockFoo<T> where T: Clone {
            pub fn foo(&self) {
                self.foo.call()
            }
            pub fn expect_foo(&mut self) -> &mut __mock_Foo::foo::Expectation {
                self.foo.expect()
            }
            pub fn checkpoint(&mut self) {
                self.Bar_expectations.checkpoint();
                { self.foo.checkpoint(); }
            }
            pub fn new() -> Self {
                Self::default()
            }
        }
        impl<T> Bar for MockFoo<T> where T: Clone {
            fn bar(&self) {
                self.Bar_expectations.bar.call()
            }
        }
        impl<T> MockFoo<T> where T: Clone {
            pub fn expect_bar(&mut self) -> &mut __mock_Foo_Bar::bar::Expectation {
                self.Bar_expectations.bar.expect()
            }
        }"#;
    let code = r#"
        Foo<T>
            where T: Clone
        {
            fn foo(&self);
        }
        trait Bar {
            fn bar(&self);
        }"#;
    check(desired, code);
}

/// The `where` clause of a method goes to the methods that stand for it.
#[test]
fn where_clause_of_method_is_kept() {
    let desired = r#"
        #[allow(non_snake_case)]
        mod __mock_SomeStruct {
            ::mockall::expectation! {
                fn foo<T>(&self, t: T) -> () {
                    let (p1: &T) = (&t);
                }
            }
        }
        struct MockSomeStruct {
            foo: __mock_SomeStruct::foo::GenericExpectations,
        }
        impl ::std::default::Default for MockSomeStruct {
            fn default() -> Self {
                Self {
                    foo: __mock_SomeStruct::foo::GenericExpectations::default(),
                }
            }
        }
        impl MockSomeStruct {
            pub fn foo<T>(&self, t: T) where T: 'static {
                self.foo.call:: <T>(t)
            }
            pub fn expect_foo<T>(&mut self)
                -> &mut __mock_SomeStruct::foo::Expectation<T>
                where T: 'static
            {
                self.foo.expect:: <T>()
            }
            pub fn checkpoint(&mut self) {
                { self.foo.checkpoint(); }
            }
            pub fn new() -> Self {
                Self::default()
            }
        }"#;
    let code = r#"
        SomeStruct {
            fn foo<T>(&self, t: T)
                where T: 'static;
        }"#;
    check(desired, code);
}

/// No `new` method is added to a structure that has one.
#[test]
fn where_clause_of_static_new_is_kept() {
    let desired = r#"
        #[allow(non_snake_case)]
        mod __mock_Foo {
            ::mockall::expectation! {
                fn new<T2>(t: T2) -> MockFoo<T2> {
                    let (p0: &T2) = (&t);
                }
            }
        }
        struct MockFoo<T: Clone> {
            _t0: ::std::marker::PhantomData<T> ,
        }
        ::mockall::lazy_static! {
            static ref MockFoo_new_expectation:
                ::std::sync::Mutex< __mock_Foo::new::GenericExpectations >
            = ::std::sync::Mutex::new(__mock_Foo::new::GenericExpectations::new());
        }
        impl<T: Clone> ::std::default::Default for MockFoo<T> {
            fn default() -> Self {
                Self {
                    _t0: ::std::marker::PhantomData,
                }
            }
        }
        impl<T: Clone> MockFoo<T> {
            pub fn new<T2>(t: T2) -> MockFoo<T2> where T2: Clone {
                MockFoo_new_expectation.lock().unwrap().call:: <T2>(t)
            }
            pub fn expect_new< 'guard, T2, >()
                -> __mock_Foo::new::GenericExpectationGuard< 'guard>
                where T2: Clone
            {
                __mock_Foo::new::GenericExpectationGuard::new(
                    MockFoo_new_expectation.lock().unwrap()
                )
            }
            pub fn checkpoint(&mut self) {
                { MockFoo_new_expectation.lock().unwrap().checkpoint(); }
            }
        }"#;
    let code = r#"
        Foo<T: Clone> {
            fn new<T2>(t: T2) -> MockFoo<T2> where T2: Clone;
        }"#;
    check(desired, code);
}

/// A `new` method is added even if a trait has one.
#[test]
fn new_method_of_a_trait() {
    let ts = TokenStream::from_str("pub Foo {} trait Bar { fn new() -> Self; }").unwrap();
    let output = do_mock(ts).unwrap().to_string();
    let added = TokenStream::from_str("pub fn new() -> Self { Self::default() }").unwrap();
    assert_eq!(output.matches(&added.to_string()).count(), 1);
    assert!(output.contains("pub struct MockFoo"));
    assert!(output.contains("pub fn expect_new"));
}

/// Lifetimes are used through references; `unsafe` and constants of a trait, qualifiers of
/// a method and attributes that are no documentation.
#[test]
fn lifetimes_and_qualifiers() {
    let desired = r#"
        #[allow(non_snake_case)]
        mod __mock_Foo {
            ::mockall::expectation! {
                fn foo< >(&self, mut x: &str, (a, ref b): (u8, u8),) -> &mut u8 {
                    let (p1: &str, p2: &(u8, u8)) = (x, &(a, ref b));
                }
            }
        }
        pub(crate) struct MockFoo< 'a> {
            Bar_expectations: MockFoo_Bar< 'a> ,
            #[cfg(all)] foo: __mock_Foo::foo::Expectations,
            _t0: ::std::marker::PhantomData< & 'a ()> ,
        }
        impl< 'a> ::std::default::Default for MockFoo< 'a> {
            fn default() -> Self {
                Self {
                    Bar_expectations: MockFoo_Bar::default(),
                    #[cfg(all)] foo: __mock_Foo::foo::Expectations::default(),
                    _t0: ::std::marker::PhantomData,
                }
            }
        }
        #[allow(non_snake_case)]
        mod __mock_Foo_Bar {}
        struct MockFoo_Bar< 'a> {
            _t0: ::std::marker::PhantomData< & 'a ()> ,
        }
        impl< 'a> ::std::default::Default for MockFoo_Bar< 'a> {
            fn default() -> Self {
                Self {
                    _t0: ::std::marker::PhantomData,
                }
            }
        }
        impl< 'a> MockFoo_Bar< 'a> {
            fn checkpoint(&mut self) {}
        }
        impl< 'a> MockFoo< 'a> {
            #[cfg(all)] pub unsafe extern "C" fn foo(&self, x: &str, (a, ref b): (u8, u8),) -> &mut u8 {
                self.foo.call_mut(x, (a, ref b))
            }
            #[cfg(all)] pub fn expect_foo(&mut self) -> &mut __mock_Foo::foo::Expectation {
                self.foo.expect()
            }
            pub fn checkpoint(&mut self) {
                self.Bar_expectations.checkpoint();
                #[cfg(all)] { self.foo.checkpoint(); }
            }
            pub fn new() -> Self {
                Self::default()
            }
        }
        unsafe impl< 'a> Bar for MockFoo< 'a> {}
        impl< 'a> MockFoo< 'a> {}
    "#;
    let code = r#"
        pub(crate) Foo< 'a> {
            /// Documentation
            #[cfg(all)]
            unsafe extern "C" fn foo(&self, mut x: &str, (a, ref b): (u8, u8),) -> &mut u8;
        }
        unsafe trait Bar: Send {
            const N: u32;
        }"#;
    check(desired, code);
}

/// `expectation!` gets the angle brackets even where a method is written with empty ones.
#[test]
fn empty_generic_parameters() {
    let plain = TokenStream::from_str("Foo { fn foo(&self); }").unwrap();
    let empty = TokenStream::from_str("Foo { fn foo<>(&self); }").unwrap();
    assert_eq!(do_mock(plain).unwrap().to_string(), do_mock(empty).unwrap().to_string());
}

/// A trait on a structure with a generic parameter.
#[test]
fn trait_on_a_generic_structure() {
    let desired = r#"
        #[allow(non_snake_case)]
        mod __mock_ExternalStruct {}
        struct MockExternalStruct<T: Copy + 'static> {
            Foo_expectations: MockExternalStruct_Foo<T> ,
            _t0: ::std::marker::PhantomData<T> ,
        }
        impl<T: Copy + 'static>
        ::std::default::Default for MockExternalStruct<T> {
            fn default() -> Self {
                Self {
                    Foo_expectations: MockExternalStruct_Foo::default(),
                    _t0: ::std::marker::PhantomData,
                }
            }
        }
        #[allow(non_snake_case)]
        mod __mock_ExternalStruct_Foo {
            ::mockall::expectation! {
                fn foo< >(&self, x: u32) -> u32 {
                    let (p1: &u32) = (&x);
                }
            }
        }
        struct MockExternalStruct_Foo<T: Copy + 'static> {
            foo: __mock_ExternalStruct_Foo::foo::Expectations,
            _t0: ::std::marker::PhantomData<T> ,
        }
        impl<T: Copy + 'static>
        ::std::default::Default for MockExternalStruct_Foo<T> {
            fn default() -> Self {
                Self {
                    foo: __mock_ExternalStruct_Foo::foo::Expectations::default(),
                    _t0: ::std::marker::PhantomData,
                }
            }
        }
        impl<T: Copy + 'static> MockExternalStruct_Foo<T> {
            fn checkpoint(&mut self) {
                { self.foo.checkpoint(); }
            }
        }
        impl<T: Copy + 'static> MockExternalStruct<T> {
            pub fn checkpoint(&mut self) {
                self.Foo_expectations.checkpoint();
            }
            pub fn new() -> Self {
                Self::default()
            }
        }
        impl<T: Copy + 'static> Foo for MockExternalStruct<T> {
            fn foo(&self, x: u32) -> u32 {
                self.Foo_expectations.foo.call(x)
            }
        }
        impl<T: Copy + 'static> MockExternalStruct<T> {
            pub fn expect_foo(&mut self)
                -> &mut __mock_ExternalStruct_Foo::foo::Expectation
            {
                self.Foo_expectations.foo.expect()
            }
        }"#;
    let code = r#"
        ExternalStruct<T: Copy + 'static> {}
        trait Foo {
            fn foo(&self, x: u32) -> u32;
        }
    "#;
    check(desired, code);
}

/// A generic trait on a structure with a parameter of the same name.
#[test]
fn generic_trait_on_a_generic_structure() {
    let desired = r#"
        #[allow(non_snake_case)]
        mod __mock_ExternalStruct {}
        struct MockExternalStruct<T> {
            GenericTrait_expectations: MockExternalStruct_GenericTrait<T> ,
            _t0: ::std::marker::PhantomData<T> ,
        }
        impl<T> ::std::default::Default for MockExternalStruct<T> {
            fn default() -> Self {
                Self {
                    GenericTrait_expectations: MockExternalStruct_GenericTrait::default(),
                    _t0: ::std::marker::PhantomData,
                }
            }
        }
        #[allow(non_snake_case)]
        mod __mock_ExternalStruct_GenericTrait {
            ::mockall::expectation! {
                fn foo< >(&self) -> () {
                    let () = ();
                }
            }
        }
        struct MockExternalStruct_GenericTrait<T> {
            foo: __mock_ExternalStruct_GenericTrait::foo::Expectations,
            _t0: ::std::marker::PhantomData<T> ,
        }
        impl<T> ::std::default::Default for MockExternalStruct_GenericTrait<T> {
            fn default() -> Self {
                Self {
                    foo: __mock_ExternalStruct_GenericTrait::foo::Expectations::default(),
                    _t0: ::std::marker::PhantomData,
                }
            }
        }
        impl<T> MockExternalStruct_GenericTrait<T> {
            fn checkpoint(&mut self) {
                { self.foo.checkpoint(); }
            }
        }
        impl<T> MockExternalStruct<T> {
            pub fn checkpoint(&mut self) {
                self.GenericTrait_expectations.checkpoint();
            }
            pub fn new() -> Self {
                Self::default()
            }
        }
        impl<T> GenericTrait<T> for MockExternalStruct<T> {
            fn foo(&self) {
                self.GenericTrait_expectations.foo.call()
            }
        }
        impl<T> MockExternalStruct<T> {
            pub fn expect_foo(&mut self)
                -> &mut __mock_ExternalStruct_GenericTrait::foo::Expectation
            {
                self.GenericTrait_expectations.foo.expect()
            }
        }"#;
    let code = r#"
        ExternalStruct<T> {}
        trait GenericTrait<T> {
            fn foo(&self);
        }"#;
    check(desired, code);
}

/// An associated type that is not generic.
#[test]
fn plain_associated_type_is_implemented() {
    let desired = r#"
        #[allow(non_snake_case)]
        mod __mock_MyIter {}
        struct MockMyIter {
            Iterator_expectations: MockMyIter_Iterator,
        }
        impl ::std::default::Default for MockMyIter {
            fn default() -> Self {
                Self {
                    Iterator_expectations: MockMyIter_Iterator::default(),
                }
            }
        }
        #[allow(non_snake_case)]
        mod __mock_MyIter_Iterator {
            ::mockall::expectation! {
                fn next< >(&mut self) -> Option<u32> {
                    let () = ();
                }
            }
        }
        struct MockMyIter_Iterator {
            next: __mock_MyIter_Iterator::next::Expectations,
        }
        impl ::std::default::Default for MockMyIter_Iterator {
            fn default() -> Self {
                Self {
                    next: __mock_MyIter_Iterator::next::Expectations::default(),
                }
            }
        }
        impl MockMyIter_Iterator {
            fn checkpoint(&mut self) {
                { self.next.checkpoint(); }
            }
        }
        impl MockMyIter {
            pub fn checkpoint(&mut self) {
                self.Iterator_expectations.checkpoint();
            }
            pub fn new() -> Self {
                Self::default()
            }
        }
        impl Iterator for MockMyIter {
            type Item=u32;
            fn next(&mut self) -> Option<u32> {
                self.Iterator_expectations.next.call()
            }
        }
        impl MockMyIter {
            pub fn expect_next(&mut self)
                -> &mut __mock_MyIter_Iterator::next::Expectation
            {
                self.Iterator_expectations.next.expect()
            }
        }"#;
    let code = r#"
        MyIter {}
        trait Iterator {
            type Item=u32;

            fn next(&mut self) -> Option<u32>;
        }
    "#;
    check(desired, code);
}

/// A `where` clause on a structure without traits.
#[test]
fn where_clause_of_plain_structure_is_kept() {
    let desired = r#"
        #[allow(non_snake_case)]
        mod __mock_Foo {
            ::mockall::expectation! {
                fn foo< >(&self) -> () {
                    let () = ();
                }
            }
        }
        struct MockFoo<T> where T: Clone {
            foo: __mock_Foo::foo::Expectations,
            _t0: ::std::marker::PhantomData<T> ,
        }
        impl<T> ::std::default::Default for MockFoo<T> where T: Clone {
            fn default() -> Self {
                Self {
                    foo: __mock_Foo::foo::Expectations::default(),
                    _t0: ::std::marker::PhantomData,
                }
            }
        }
        impl<T> MockFoo<T> where T: Clone {
            pub fn foo(&self) {
                self.foo.call()
            }
            pub fn expect_foo(&mut self) -> &mut __mock_Foo::foo::Expectation {
                self.foo.expect()
            }
            pub fn checkpoint(&mut self) {
                { self.foo.checkpoint(); }
            }
            pub fn new() -> Self {
                Self::default()
            }
        }"#;
    let code = r#"
        Foo<T>
            where T: Clone
        {
            fn foo(&self);
        }
    "#;
    check(desired, code);
}
