//! The words and names that generated code is made of.

use vstd::prelude::*;
use vstd::string::{StrSliceExecFns, StringExecFns};

verus! {

use crate::tokens::{is_fixed, is_ident, is_plain};

/// The fixed words of generated code are plain identifiers.
pub(crate) proof fn lemma_words()
    ensures
        is_fixed("impl"@),
        is_fixed("mut"@),
        is_fixed("ref"@),
        is_fixed("self"@),
        is_fixed("fn"@),
        is_fixed("checkpoint"@),
        is_fixed("pub"@),
        is_fixed("new"@),
        is_fixed("Self"@),
        is_fixed("default"@),
        is_fixed("std"@),
        is_fixed("Default"@),
        is_fixed("for"@),
        is_fixed("allow"@),
        is_fixed("non_snake_case"@),
        is_fixed("mod"@),
        is_fixed("struct"@),
        is_fixed("mockall"@),
        is_fixed("lazy_static"@),
        is_fixed("static"@),
        is_fixed("sync"@),
        is_fixed("Mutex"@),
        is_fixed("lock"@),
        is_fixed("unwrap"@),
        is_fixed("expectation"@),
        is_fixed("let"@),
        is_fixed("marker"@),
        is_fixed("PhantomData"@),
        is_fixed("expect"@),
        is_fixed("Expectation"@),
        is_fixed("Expectations"@),
        is_fixed("GenericExpectations"@),
        is_fixed("ExpectationGuard"@),
        is_fixed("GenericExpectationGuard"@),
        is_fixed("Box"@),
        is_fixed("dyn"@),
        is_fixed("string"@),
        is_fixed("String"@),
        is_fixed("call"@),
        is_fixed("call_mut"@),
        is_fixed("guard"@),
{
    reveal_strlit("impl");
    reveal_strlit("mut");
    reveal_strlit("ref");
    reveal_strlit("self");
    reveal_strlit("fn");
    reveal_strlit("checkpoint");
    reveal_strlit("pub");
    reveal_strlit("new");
    reveal_strlit("Self");
    reveal_strlit("default");
    reveal_strlit("std");
    reveal_strlit("Default");
    reveal_strlit("for");
    reveal_strlit("allow");
    reveal_strlit("non_snake_case");
    reveal_strlit("mod");
    reveal_strlit("struct");
    reveal_strlit("mockall");
    reveal_strlit("lazy_static");
    reveal_strlit("static");
    reveal_strlit("sync");
    reveal_strlit("Mutex");
    reveal_strlit("lock");
    reveal_strlit("unwrap");
    reveal_strlit("expectation");
    reveal_strlit("let");
    reveal_strlit("marker");
    reveal_strlit("PhantomData");
    reveal_strlit("expect");
    reveal_strlit("Expectation");
    reveal_strlit("Expectations");
    reveal_strlit("GenericExpectations");
    reveal_strlit("ExpectationGuard");
    reveal_strlit("GenericExpectationGuard");
    reveal_strlit("Box");
    reveal_strlit("dyn");
    reveal_strlit("string");
    reveal_strlit("String");
    reveal_strlit("call");
    reveal_strlit("call_mut");
    reveal_strlit("guard");
}

/// The mock structure that stands for a type.
pub open spec fn mock_name(ident: Seq<char>) -> Seq<char> {
    "Mock"@ + ident
}

/// The module that holds the expectations of a structure, or of a trait of it.
pub open spec fn mod_name(struct_: Seq<char>, trait_: Option<Seq<char>>) -> Seq<char> {
    match trait_ {
        Some(trait_) => "__mock_"@ + struct_ + "_"@ + trait_,
        None => "__mock_"@ + struct_,
    }
}

/// What is generated for one trait of a structure is named after both.
pub open spec fn sub_name(ident: Seq<char>, sub: Seq<char>) -> Seq<char> {
    ident + "_"@ + sub
}

/// The field that holds the expectations of a trait.
pub open spec fn sub_field_name(sub: Seq<char>) -> Seq<char> {
    sub + "_expectations"@
}

/// The static that holds the expectations of a static method.
pub open spec fn static_name(
    mock: Seq<char>,
    sub: Option<Seq<char>>,
    method: Seq<char>,
) -> Seq<char> {
    match sub {
        Some(sub) => mock + "_"@ + sub + "_"@ + method + "_expectation"@,
        None => mock + "_"@ + method + "_expectation"@,
    }
}

/// The method that sets an expectation of another method.
pub open spec fn expect_name(method: Seq<char>) -> Seq<char> {
    "expect_"@ + method
}

/// A number in decimal notation.
pub open spec fn decimal(n: nat) -> Seq<char>
    decreases n,
{
    let digit = "0123456789"@[n as int % 10];
    if n < 10 {
        seq![digit]
    } else {
        decimal(n / 10).push(digit)
    }
}

/// The field that makes use of a generic parameter.
pub open spec fn phantom_name(index: nat) -> Seq<char> {
    "_t"@ + decimal(index)
}

/// The name under which a matcher gets an argument.
pub open spec fn matcher_name(index: nat) -> Seq<char> {
    "p"@ + decimal(index)
}

/// Names made out of identifiers are identifiers.
pub(crate) proof fn lemma_names(a: Seq<char>, b: Seq<char>, c: Seq<char>)
    requires
        is_ident(a),
        is_ident(b),
        is_ident(c),
    ensures
        is_ident(mock_name(a)),
        is_ident(mod_name(a, None)),
        is_ident(mod_name(a, Some(b))),
        is_ident(sub_name(a, b)),
        is_ident(sub_field_name(a)),
        is_ident(static_name(a, None, b)),
        is_ident(static_name(a, Some(b), c)),
        is_ident(expect_name(a)),
{
    reveal_strlit("Mock");
    reveal_strlit("__mock_");
    reveal_strlit("_");
    reveal_strlit("_expectations");
    reveal_strlit("_expectation");
    reveal_strlit("expect_");
}

/// Names made out of plain names are plain.
pub(crate) proof fn lemma_plain_names(a: Seq<char>, b: Seq<char>, c: Seq<char>)
    requires
        is_plain(a),
        is_plain(b),
        is_plain(c),
    ensures
        is_plain(mock_name(a)),
        is_plain(mod_name(a, None)),
        is_plain(mod_name(a, Some(b))),
        is_plain(sub_name(a, b)),
        is_plain(sub_field_name(a)),
        is_plain(static_name(a, None, b)),
        is_plain(static_name(a, Some(b), c)),
        is_plain(expect_name(a)),
{
    reveal_strlit("Mock");
    reveal_strlit("__mock_");
    reveal_strlit("_");
    reveal_strlit("_expectations");
    reveal_strlit("_expectation");
    reveal_strlit("expect_");
}

/// A number can end an identifier.
pub(crate) proof fn lemma_decimal(n: nat)
    ensures
        decimal(n).len() > 0,
        forall|i: int| 0 <= i < decimal(n).len() ==> '0' <= #[trigger] decimal(n)[i] <= '9',
    decreases n,
{
    reveal_strlit("0123456789");
    if n >= 10 {
        lemma_decimal(n / 10);
    }
}

pub(crate) proof fn lemma_numbered(n: nat)
    ensures
        is_fixed(phantom_name(n)),
        is_fixed(matcher_name(n)),
{
    reveal_strlit("_t");
    reveal_strlit("p");
    lemma_decimal(n);
}

fn decimal_text(n: usize) -> (r: String)
    ensures
        r@ == decimal(n as nat),
    decreases n,
{
    proof {
        reveal_strlit("0123456789");
    }
    let d: usize = n % 10;
    let digit = "0123456789".substring_char(d, d + 1);
    assert(digit@ =~= seq!["0123456789"@[d as int]]);
    if n < 10 {
        String::from_str(digit)
    } else {
        let mut r = decimal_text(n / 10);
        r.append(digit);
        assert(r@ =~= decimal(n as nat));
        r
    }
}

/// The mock structure that stands for a type.
pub fn gen_mock_ident(ident: &str) -> (r: String)
    ensures
        r@ == mock_name(ident@),
{
    let mut r = String::from_str("Mock");
    r.append(ident);
    r
}

/// The module that holds the expectations of a structure, or of a trait of it.
pub fn gen_mod_ident(struct_: &str, trait_: Option<&str>) -> (r: String)
    ensures
        r@ == mod_name(
            struct_@,
            match trait_ {
                Some(trait_) => Some(trait_@),
                None => None,
            },
        ),
{
    let mut r = String::from_str("__mock_");
    r.append(struct_);
    if let Some(trait_) = trait_ {
        r.append("_");
        r.append(trait_);
    }
    r
}

pub(crate) fn gen_sub_ident(ident: &str, sub: &str) -> (r: String)
    ensures
        r@ == sub_name(ident@, sub@),
{
    let mut r = String::from_str(ident);
    r.append("_");
    r.append(sub);
    r
}

pub(crate) fn gen_sub_field(sub: &str) -> (r: String)
    ensures
        r@ == sub_field_name(sub@),
{
    let mut r = String::from_str(sub);
    r.append("_expectations");
    r
}

pub(crate) fn gen_static_ident(mock: &str, sub: Option<&str>, method: &str) -> (r: String)
    ensures
        r@ == static_name(
            mock@,
            match sub {
                Some(sub) => Some(sub@),
                None => None,
            },
            method@,
        ),
{
    let mut r = String::from_str(mock);
    r.append("_");
    if let Some(sub) = sub {
        r.append(sub);
        r.append("_");
    }
    r.append(method);
    r.append("_expectation");
    r
}

pub(crate) fn gen_expect_ident(method: &str) -> (r: String)
    ensures
        r@ == expect_name(method@),
{
    let mut r = String::from_str("expect_");
    r.append(method);
    r
}

pub(crate) fn gen_phantom_ident(index: usize) -> (r: String)
    ensures
        r@ == phantom_name(index as nat),
        is_fixed(r@),
{
    proof {
        lemma_numbered(index as nat);
    }
    let mut r = String::from_str("_t");
    r.append(decimal_text(index).as_str());
    r
}

pub(crate) fn gen_matcher_ident(index: usize) -> (r: String)
    ensures
        r@ == matcher_name(index as nat),
        is_fixed(r@),
{
    proof {
        lemma_numbered(index as nat);
    }
    let mut r = String::from_str("p");
    r.append(decimal_text(index).as_str());
    r
}

} // verus!
