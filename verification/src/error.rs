//! What can be wrong with a model.
use vstd::prelude::*;

verus! {

#[derive(Debug)]
pub enum ModelError {
    InvalidCapacity(String),
    InvalidTimeWindow(String),
    InvalidParameter { field: String, value: String },
}

/// The message of an error.
pub open spec fn message(e: ModelError) -> Seq<char> {
    match e {
        ModelError::InvalidCapacity(s) => "invalid capacity: "@ + s@,
        ModelError::InvalidTimeWindow(s) => "invalid time window: "@ + s@,
        ModelError::InvalidParameter { field, value } => "invalid parameter: "@ + field@ + " = "@
            + value@,
    }
}

impl ModelError {
    /// The message of the error.
    pub fn describe(&self) -> (r: String)
        ensures
            r@ == message(*self),
    {
        match self {
            ModelError::InvalidCapacity(s) => "invalid capacity: ".to_owned().concat(s.as_str()),
            ModelError::InvalidTimeWindow(s) => "invalid time window: ".to_owned().concat(
                s.as_str(),
            ),
            ModelError::InvalidParameter { field, value } => "invalid parameter: ".to_owned().concat(
                field.as_str(),
            ).concat(" = ").concat(value.as_str()),
        }
    }
}

/// An error says what is invalid, and which value was given.
pub proof fn errors_say_what_is_invalid(e: ModelError)
    ensures
        e matches ModelError::InvalidCapacity(s) ==> message(e) == "invalid capacity: "@ + s@,
        e matches ModelError::InvalidTimeWindow(s) ==> message(e) == "invalid time window: "@ + s@,
        e matches ModelError::InvalidParameter { field, value } ==> message(e)
            == "invalid parameter: "@ + field@ + " = "@ + value@,
{
}

} // verus!
