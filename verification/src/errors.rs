use vstd::prelude::*;

verus! {

/// Common shape of the library's error values: each one carries exactly one
/// descriptive message string.
pub trait Error: Sized {
    /// The message the error carries, as a character sequence.
    spec fn spec_message(&self) -> Seq<char>;

    /// Wrap a message into an error value.
    fn new(message: String) -> (r: Self)
        ensures
            r.spec_message() == message@,
    ;

    /// Read the message back.
    fn message(&self) -> (r: &str)
        ensures
            r@ == self.spec_message(),
    ;
}

/// A validation failure raised while freezing a builder into a request.
#[derive(Clone, Debug)]
pub struct BuilderError {
    message: String,
}

impl Error for BuilderError {
    closed spec fn spec_message(&self) -> Seq<char> {
        self.message@
    }

    fn new(message: String) -> (r: Self) {
        BuilderError { message }
    }

    fn message(&self) -> (r: &str) {
        self.message.as_str()
    }
}

/// A transport failure raised while sending a request.
#[derive(Clone, Debug)]
pub struct RequestError {
    message: String,
}

impl Error for RequestError {
    closed spec fn spec_message(&self) -> Seq<char> {
        self.message@
    }

    fn new(message: String) -> (r: Self) {
        RequestError { message }
    }

    fn message(&self) -> (r: &str) {
        self.message.as_str()
    }
}

/// A parse failure raised while decomposing a raw response text.
#[derive(Clone, Debug)]
pub struct ResponseError {
    message: String,
}

impl Error for ResponseError {
    closed spec fn spec_message(&self) -> Seq<char> {
        self.message@
    }

    fn new(message: String) -> (r: Self) {
        ResponseError { message }
    }

    fn message(&self) -> (r: &str) {
        self.message.as_str()
    }
}

} // verus!
