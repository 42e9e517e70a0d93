//! The errors of a bounded read session, and the refusals that they stand for.

use vstd::prelude::*;

verus! {

/// Why an operation of a bounded read session was refused.
#[derive(Debug)]
pub enum BoundedReadError {
    ContextTooLarge,
    BudgetExhausted,
    InvalidCustody(String),
    DeadlineExceeded,
}

/// What a [`BoundedReadError`] says, with its text as a sequence of characters.
pub enum Refusal {
    ContextTooLarge,
    BudgetExhausted,
    InvalidCustody(Seq<char>),
    DeadlineExceeded,
}

impl View for BoundedReadError {
    type V = Refusal;

    open spec fn view(&self) -> Refusal {
        match *self {
            BoundedReadError::ContextTooLarge => Refusal::ContextTooLarge,
            BoundedReadError::BudgetExhausted => Refusal::BudgetExhausted,
            BoundedReadError::InvalidCustody(message) => Refusal::InvalidCustody(message@),
            BoundedReadError::DeadlineExceeded => Refusal::DeadlineExceeded,
        }
    }
}

/// A result with its error taken as a [`Refusal`].
pub open spec fn outcome<T>(result: Result<T, BoundedReadError>) -> Result<T, Refusal> {
    match result {
        Ok(value) => Ok(value),
        Err(error) => Err(error@),
    }
}

/// The stable code that names each kind of refusal.
pub open spec fn refusal_code(refusal: Refusal) -> Seq<char> {
    match refusal {
        Refusal::ContextTooLarge => "context-too-large"@,
        Refusal::BudgetExhausted => "budget-exhausted"@,
        Refusal::InvalidCustody(_) => "invalid-custody"@,
        Refusal::DeadlineExceeded => "deadline-exceeded"@,
    }
}

/// The sentence that describes a refusal to a person.
pub open spec fn refusal_message(refusal: Refusal) -> Seq<char> {
    match refusal {
        Refusal::ContextTooLarge => "bounded read context is too large"@,
        Refusal::BudgetExhausted => "bounded read budget is exhausted"@,
        Refusal::InvalidCustody(message) => "bounded read custody is invalid: "@ + message,
        Refusal::DeadlineExceeded => "bounded read deadline exceeded"@,
    }
}

impl BoundedReadError {
    /// The stable code of this error.
    pub fn code(&self) -> (code: &'static str)
        ensures
            code@ == refusal_code(self@),
    {
        match self {
            BoundedReadError::ContextTooLarge => "context-too-large",
            BoundedReadError::BudgetExhausted => "budget-exhausted",
            BoundedReadError::InvalidCustody(_) => "invalid-custody",
            BoundedReadError::DeadlineExceeded => "deadline-exceeded",
        }
    }

    /// The text that a person is shown for this error.
    pub fn message(&self) -> (text: String)
        ensures
            text@ == refusal_message(self@),
    {
        match self {
            BoundedReadError::ContextTooLarge => "bounded read context is too large".to_owned(),
            BoundedReadError::BudgetExhausted => "bounded read budget is exhausted".to_owned(),
            BoundedReadError::InvalidCustody(message) => {
                joined("bounded read custody is invalid: ", message.as_str())
            },
            BoundedReadError::DeadlineExceeded => "bounded read deadline exceeded".to_owned(),
        }
    }
}

/// An invalid-custody error with the given message.
pub fn invalid(message: &str) -> (error: BoundedReadError)
    ensures
        error@ == Refusal::InvalidCustody(message@),
{
    BoundedReadError::InvalidCustody(message.to_owned())
}

/// Two texts, one after the other.
pub fn joined(first: &str, second: &str) -> (text: String)
    ensures
        text@ == first@ + second@,
{
    first.to_owned().concat(second)
}

} // verus!
