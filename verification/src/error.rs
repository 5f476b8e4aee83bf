//! What cannot be mocked.

use vstd::prelude::*;

verus! {

/// Why there is no mock for a description.
#[derive(Clone, Copy, PartialEq, Eq, Structural, Debug)]
pub enum MockError {
    /// The parser gives up on the tokens without an error.
    Unreadable,
    /// A name that other names are made of is not an identifier, is a raw one, or is spelt
    /// otherwise in them.
    Name,
    /// A method takes a variable number of arguments.
    Variadic,
    /// A parameter of a method is not a pattern with a type.
    Argument,
    /// A lifetime parameter of the structure has bounds.
    LifetimeBounds,
    /// A generic parameter of the structure is a constant.
    ConstParameter,
    /// An associated type has generic parameters.
    GenericAssociatedType,
    /// An associated type is not given.
    OpenAssociatedType,
    /// An item of a trait is neither a constant, a method nor a type.
    TraitItem,
}

/// Whether a result comes to what the error says.  Where the names at hand are not plain,
/// they can also be refused for how they are spelt in other names.
pub open spec fn comes_to<T>(
    r: Result<T, MockError>,
    error: Option<MockError>,
    plain: bool,
) -> bool {
    match r {
        Ok(_) => error is None,
        Err(e) => error == Some(e) || (e == MockError::Name && !plain),
    }
}

impl MockError {
    pub open spec fn text(self) -> Seq<char> {
        match self {
            MockError::Unreadable => "These tokens cannot be parsed"@,
            MockError::Name => "A mocked name must be an identifier that is not raw"@,
            MockError::Variadic => "MockAll does not yet support variadic functions"@,
            MockError::Argument => "Should be unreachable for normal Rust code"@,
            MockError::LifetimeBounds =>
            "#automock does not yet support lifetime bounds on structs"@,
            MockError::ConstParameter => "#automock does not yet support generic constants"@,
            MockError::GenericAssociatedType =>
            "Mockall does not yet support generic associated types"@,
            MockError::OpenAssociatedType =>
            "Associated types must be made concrete for mocking."@,
            MockError::TraitItem => "This impl item is not yet supported by MockAll"@,
        }
    }

    /// The error in words.
    pub fn message(&self) -> (r: &'static str)
        ensures
            r@ == self.text(),
    {
        match self {
            MockError::Unreadable => "These tokens cannot be parsed",
            MockError::Name => "A mocked name must be an identifier that is not raw",
            MockError::Variadic => "MockAll does not yet support variadic functions",
            MockError::Argument => "Should be unreachable for normal Rust code",
            MockError::LifetimeBounds =>
                "#automock does not yet support lifetime bounds on structs",
            MockError::ConstParameter => "#automock does not yet support generic constants",
            MockError::GenericAssociatedType =>
                "Mockall does not yet support generic associated types",
            MockError::OpenAssociatedType => "Associated types must be made concrete for mocking.",
            MockError::TraitItem => "This impl item is not yet supported by MockAll",
        }
    }
}

} // verus!
