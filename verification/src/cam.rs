//! The error of the host's native access method.
use vstd::prelude::*;

verus! {

/// An error that the native access method reported, with its message.
#[derive(Debug)]
pub struct CAMError(String);

impl View for CAMError {
    type V = Seq<char>;

    closed spec fn view(&self) -> Seq<char> {
        self.0@
    }
}

impl CAMError {
    /// Makes the error with the message `message`.
    pub fn new(message: String) -> (r: CAMError)
        ensures
            r@ == message@,
    {
        CAMError(message)
    }

    /// Gives the message of the error.
    pub fn description(&self) -> (r: &str)
        ensures
            r@ == self@,
    {
        self.0.as_str()
    }

    /// Gives the error that caused this one: there is never one.
    pub fn cause(&self) -> (r: Option<&CAMError>)
        ensures
            r is None,
    {
        None
    }

    /// Gives the error as it is shown: the message after `CAM error: `.
    pub fn to_string(&self) -> (r: String)
        ensures
            r@ == "CAM error: "@ + self@,
    {
        let mut text = String::from_str("CAM error: ");
        text.append(self.0.as_str());
        text
    }
}

} // verus!
