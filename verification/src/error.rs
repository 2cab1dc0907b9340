//! The library's error value: the text the bot logs or shows.
use vstd::prelude::*;
use vstd::string::*;

verus! {

/// An error, carried by the text that describes it.
#[derive(Debug)]
pub struct BotError {
    pub message: String,
}

impl BotError {
    /// An error with the given text.
    pub fn from_str(text: &str) -> (e: BotError)
        ensures
            e.message@ == text@,
    {
        BotError { message: String::from_str(text) }
    }

    /// An error whose text is `prefix` followed by `detail`.
    pub fn with_detail(prefix: &str, detail: &str) -> (e: BotError)
        ensures
            e.message@ == prefix@ + detail@,
    {
        let mut m = String::from_str(prefix);
        m.append(detail);
        BotError { message: m }
    }

    /// A copy of this error.
    pub fn duplicate(&self) -> (e: BotError)
        ensures
            e.message@ == self.message@,
    {
        BotError { message: self.message.clone() }
    }
}

/// `a` followed by `b`.
pub fn concat(a: &str, b: &str) -> (r: String)
    ensures
        r@ == a@ + b@,
{
    let mut r = String::from_str(a);
    r.append(b);
    r
}

} // verus!
