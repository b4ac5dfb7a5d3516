//! The failures that the operations of this library report.

use vstd::prelude::*;

verus! {

#[verifier::external_type_specification]
#[verifier::external_body]
pub struct ExIoError(std::io::Error);

/// Why an operation failed.
pub enum NvramError {
    /// The device image holds no bank that validates.
    Parse,
    /// A staged bank does not fit in its fixed region.
    SectionTooBig,
    /// Writing the staged bank to the device failed.
    ApplyError(std::io::Error),
    /// A variable reference lacks its `partition:` prefix.
    MissingPartitionName,
    /// An assignment lacks its `=value` part.
    MissingValue,
    /// The requested variable is not in the active bank.
    VariableNotFound,
    /// The partition name is neither `common` nor `system`.
    UnknownPartition,
    /// A `%` escape is not followed by two hexadecimal digits.
    InvalidHex,
    /// The value cannot be kept escaped: a `0xFF` byte is followed by a
    /// zero count.
    InvalidValue,
    /// The active bank's generation counter has no room for another write.
    GenerationExhausted,
}

#[verifier::external_type_specification]
pub struct ExNvramError(apple_nvram::Error);

/// The library's error for each failure of the NVRAM store.
pub open spec fn error_of(e: apple_nvram::Error) -> NvramError {
    match e {
        apple_nvram::Error::ParseError => NvramError::Parse,
        apple_nvram::Error::SectionTooBig => NvramError::SectionTooBig,
        apple_nvram::Error::ApplyError(io) => NvramError::ApplyError(io),
    }
}

impl From<apple_nvram::Error> for NvramError {
    fn from(e: apple_nvram::Error) -> (r: NvramError)
        ensures
            r == error_of(e),
    {
        match e {
            apple_nvram::Error::ParseError => NvramError::Parse,
            apple_nvram::Error::SectionTooBig => NvramError::SectionTooBig,
            apple_nvram::Error::ApplyError(io) => NvramError::ApplyError(io),
        }
    }
}

impl vstd::std_specs::convert::FromSpecImpl<apple_nvram::Error> for NvramError {
    open spec fn obeys_from_spec() -> bool {
        true
    }

    open spec fn from_spec(e: apple_nvram::Error) -> NvramError {
        error_of(e)
    }
}

} // verus!
