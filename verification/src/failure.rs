//! The one error type of the library: a message for the user.
use vstd::prelude::*;

verus! {

broadcast use vstd::string::group_string_axioms;

/// Why something could not be done, as it is told to the user.
#[derive(Debug, Clone)]
pub struct Failure {
    pub message: String,
}

impl View for Failure {
    type V = Seq<char>;

    open spec fn view(&self) -> Seq<char> {
        self.message@
    }
}

impl Failure {
    /// The failure with the given message.
    pub fn new(message: String) -> (r: Self)
        ensures
            r@ == message@,
    {
        Failure { message }
    }

    /// A copy of the failure.
    pub fn copied(&self) -> (r: Self)
        ensures
            r@ == self@,
    {
        Failure { message: self.message.clone() }
    }
}

}
