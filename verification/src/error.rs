//! Error types and utilities.
use vstd::prelude::*;
use vstd::std_specs::convert::FromSpecImpl;

verus! {

/// `region::Error`, the error of a region query.
#[verifier::external_type_specification]
#[verifier::external_body]
pub struct ExRegionError(region::Error);

/// A collection of possible errors.
#[derive(Debug)]
pub enum AllocError {
    /// The system is out of executable memory.
    OutOfMemory,
    /// A memory query failed.
    RegionFailure(region::Error),
}

/// The text that `region` gives for one of its errors, by its `Display`
/// implementation. Nothing is claimed of the text.
#[verifier::external_body]
fn describe_region_error(error: &region::Error) -> String {
    format!("{}", error)
}

impl AllocError {
    /// Describes the error in words.
    pub fn message(&self) -> (text: String)
        ensures
            self is OutOfMemory ==> text@ == "Cannot allocate memory"@,
    {
        match self {
            AllocError::OutOfMemory => "Cannot allocate memory".to_owned(),
            AllocError::RegionFailure(error) => describe_region_error(error),
        }
    }
}

impl From<region::Error> for AllocError {
    fn from(error: region::Error) -> (r: Self) {
        AllocError::RegionFailure(error)
    }
}

impl FromSpecImpl<region::Error> for AllocError {
    open spec fn obeys_from_spec() -> bool {
        true
    }

    open spec fn from_spec(error: region::Error) -> Self {
        AllocError::RegionFailure(error)
    }
}

} // verus!
