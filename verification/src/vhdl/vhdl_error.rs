use vstd::prelude::*;
use vstd::string::StringExecFns;

verus! {

/// A recoverable model-construction failure carrying a description of the
/// offending identifier or model name.
#[derive(Debug)]
pub struct VhdlError {
    pub message: String,
}

impl VhdlError {
    pub fn new(message: &str) -> (r: VhdlError)
        ensures
            r.message@ == message@,
    {
        VhdlError { message: String::from_str(message) }
    }

    /// The text of the failure.
    pub fn get_message(&self) -> (r: &String)
        ensures
            r@ == self.message@,
    {
        &self.message
    }
}

} // verus!
