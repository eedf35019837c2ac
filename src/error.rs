use vstd::prelude::*;

verus! {

/// An error raised while handling a request; it carries a readable message.
#[derive(Debug)]
pub struct HttpError {
    pub message: String,
}

impl HttpError {
    pub fn new(message: String) -> (r: HttpError)
        ensures
            r.message@ == message@,
    {
        HttpError { message }
    }

    /// The message, as the error is shown to a reader.
    pub fn to_string(&self) -> (r: String)
        ensures
            r@ == self.message@,
    {
        self.message.clone()
    }
}

} // verus!
