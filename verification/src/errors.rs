//! What can be wrong with the configuration of a test.

use vstd::prelude::*;

verus! {

/// Reasons to reject a test's configuration or declaration.
#[derive(Debug, Copy, Clone, PartialEq, Eq, Structural)]
pub enum Error {
    NoValue,
    BadValue,
    BadInteger,
    BadType,
    ExtraData,
    FunctionDeclIncomplete,
    FunctionDeclBad,
    FunctionNoBody,
    FunctionExtraTokens,
}

impl Error {
    /// The name of the variant.
    pub open spec fn name_view(self) -> Seq<char> {
        match self {
            Error::NoValue => "NoValue"@,
            Error::BadValue => "BadValue"@,
            Error::BadInteger => "BadInteger"@,
            Error::BadType => "BadType"@,
            Error::ExtraData => "ExtraData"@,
            Error::FunctionDeclIncomplete => "FunctionDeclIncomplete"@,
            Error::FunctionDeclBad => "FunctionDeclBad"@,
            Error::FunctionNoBody => "FunctionNoBody"@,
            Error::FunctionExtraTokens => "FunctionExtraTokens"@,
        }
    }

    /// The name of the variant, as diagnostics print it.
    pub fn name(self) -> (r: &'static str)
        ensures
            r@ == self.name_view(),
    {
        match self {
            Error::NoValue => "NoValue",
            Error::BadValue => "BadValue",
            Error::BadInteger => "BadInteger",
            Error::BadType => "BadType",
            Error::ExtraData => "ExtraData",
            Error::FunctionDeclIncomplete => "FunctionDeclIncomplete",
            Error::FunctionDeclBad => "FunctionDeclBad",
            Error::FunctionNoBody => "FunctionNoBody",
            Error::FunctionExtraTokens => "FunctionExtraTokens",
        }
    }
}

} // verus!
