use vstd::prelude::*;

verus! {

/// The reason a request was refused, as the text that is shown to its sender.
#[derive(Debug)]
pub struct Error {
    text: String,
}

pub type Result<T> = std::result::Result<T, Error>;

impl View for Error {
    type V = Seq<char>;

    closed spec fn view(&self) -> Seq<char> {
        self.text@
    }
}

impl Error {
    pub fn msg(text: &str) -> (r: Error)
        ensures
            r@ == text@,
    {
        Error { text: text.to_owned() }
    }

    pub fn owned(text: String) -> (r: Error)
        ensures
            r@ == text@,
    {
        Error { text }
    }

    /// The text of the refusal.
    pub fn text(&self) -> (r: &str)
        ensures
            r@ == self@,
    {
        self.text.as_str()
    }
}

/// The outcome of an operation as its contract describes it: a value, or the text of the refusal.
pub type Outcome<T> = std::result::Result<T, Seq<char>>;

/// What an executed operation returned, in the terms of its contract.
pub open spec fn outcome<T: DeepView>(r: Result<T>) -> Outcome<T::V> {
    match r {
        Ok(value) => Ok(value.deep_view()),
        Err(error) => Err(error@),
    }
}

} // verus!
