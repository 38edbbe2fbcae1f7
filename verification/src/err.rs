use vstd::prelude::*;

verus! {

/// The two error kinds of C's math-error convention: `EDOM` for inputs where
/// the function is mathematically undefined, `ERANGE` for results that fall
/// outside the representable range.
#[derive(Debug, Clone, Copy, PartialEq, Eq, Structural)]
pub enum Error {
    EDOM,
    ERANGE,
}

impl Error {
    /// The POSIX errno constant conventionally set for this error kind.
    pub fn code(&self) -> (c: i32)
        ensures
            c == (if *self == Error::EDOM { 33int } else { 34int }),
    {
        match self {
            Error::EDOM => 33,
            Error::ERANGE => 34,
        }
    }

    /// Translate an errno value back into an error kind; a code that names
    /// neither kind is handed back unchanged.
    pub fn from_errno(value: i32) -> (r: core::result::Result<Error, i32>)
        ensures
            r == (if value == 33 {
                core::result::Result::<Error, i32>::Ok(Error::EDOM)
            } else if value == 34 {
                core::result::Result::<Error, i32>::Ok(Error::ERANGE)
            } else {
                core::result::Result::<Error, i32>::Err(value)
            }),
    {
        match value {
            33 => Ok(Error::EDOM),
            34 => Ok(Error::ERANGE),
            _ => Err(value),
        }
    }
}

} // verus!
