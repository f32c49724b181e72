//! Errors for people: what failed, and why.
use vstd::prelude::*;

use crate::text;

verus! {

/// What failed, and the cause underneath if there is one.
#[derive(Debug)]
pub struct Failure {
    pub message: String,
    pub cause: Option<String>,
}

/// What a [`Failure`] says.
#[verifier::ext_equal]
pub struct FailureModel {
    pub message: Seq<char>,
    pub cause: Option<Seq<char>>,
}

impl View for Failure {
    type V = FailureModel;

    open spec fn view(&self) -> FailureModel {
        FailureModel { message: self.message@, cause: text::said(self.cause) }
    }
}

/// A failure with nothing underneath.
pub open spec fn plain(message: Seq<char>) -> FailureModel {
    FailureModel { message, cause: None }
}

/// A failure that another error led to.
pub open spec fn because(message: Seq<char>, cause: Seq<char>) -> FailureModel {
    FailureModel { message, cause: Some(cause) }
}

impl Failure {
    /// A failure with nothing underneath.
    pub fn new(message: String) -> (res: Failure)
        ensures
            res@ == plain(message@),
    {
        Failure { message, cause: None }
    }

    /// A failure that another error led to.
    pub fn caused(message: &str, cause: String) -> (res: Failure)
        ensures
            res@ == because(message@, cause@),
    {
        Failure { message: message.to_string(), cause: Some(cause) }
    }
}

/// A failure says what failed, and what led to it if something did.
pub proof fn law_failures_keep_their_cause(message: Seq<char>, cause: Seq<char>)
    ensures
        plain(message).message == message,
        plain(message).cause is None,
        because(message, cause).message == message,
        because(message, cause).cause == Some(cause),
{
}

/// What a failure says is what it holds.
pub proof fn law_failures_say_what_they_hold(f: Failure)
    ensures
        f@.message == f.message@,
        f@.cause is Some <==> f.cause is Some,
        f.cause matches Some(cause) ==> f@.cause == Some(cause@),
{
}

} // verus!
