use vstd::prelude::*;

verus! {

/// Why a sprite sheet could not be produced. Each of these ends the run.
#[derive(Clone, Copy, Debug, PartialEq, Eq, Structural)]
pub enum SheetError {
    /// The texture file could not be opened, or its header could not be read.
    FileAccessError,
    /// A slice count is zero.
    InvalidSliceCount,
    /// A direction token names no direction.
    InvalidDirectionToken,
    /// The requested capability does not exist yet.
    NotImplemented,
}

impl SheetError {
    /// The message that reports this error to a user.
    pub fn message(&self) -> (r: &'static str)
        ensures
            *self == SheetError::FileAccessError ==> r@ == "Cannot read the texture file"@,
            *self == SheetError::InvalidSliceCount ==> r@ == "Slice counts must be at least 1"@,
            *self == SheetError::InvalidDirectionToken ==> r@ == "Unknown direction"@,
            *self == SheetError::NotImplemented ==> r@ == "Not implemented"@,
    {
        match self {
            SheetError::FileAccessError => "Cannot read the texture file",
            SheetError::InvalidSliceCount => "Slice counts must be at least 1",
            SheetError::InvalidDirectionToken => "Unknown direction",
            SheetError::NotImplemented => "Not implemented",
        }
    }
}

} // verus!
