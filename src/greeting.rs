//! The greeting: a name and a picked number, validated and echoed back.
use vstd::prelude::*;
use crate::number::{decimal_text, is_numeral, lemma_decimal_text_names, number_of, parse_number};

verus! {

/// The largest number a caller may pick.
pub const MAX_PICKED_NUMBER: u64 = 100;

/// HTTP status of a greeting that was answered.
pub const STATUS_OK: u16 = 200;

/// HTTP status of a greeting that was refused.
pub const STATUS_BAD_REQUEST: u16 = 400;

/// The record a successful greeting answers with.
#[derive(Debug, PartialEq, Eq)]
pub struct Person {
    pub name: String,
    pub picked_number: u64,
}

pub ghost struct PersonView {
    pub name: Seq<char>,
    pub picked_number: u64,
}

impl View for Person {
    type V = PersonView;

    open spec fn view(&self) -> PersonView {
        PersonView { name: self.name@, picked_number: self.picked_number }
    }
}

/// Why a greeting was refused.
#[derive(Clone, Copy, Debug, PartialEq, Eq, Structural)]
pub enum GreetingError {
    /// The number segment does not name a non-negative integer.
    InvalidNumber,
    /// The number is above `MAX_PICKED_NUMBER`.
    NumberTooHigh,
}

pub open spec fn error_message(e: GreetingError) -> Seq<char> {
    match e {
        GreetingError::InvalidNumber => "Number is not a non-negative integer"@,
        GreetingError::NumberTooHigh => "Number is too high"@,
    }
}

impl GreetingError {
    /// Every refused greeting is a client error.
    pub open spec fn status_code_spec(&self) -> u16 {
        STATUS_BAD_REQUEST
    }

    /// The HTTP status a refused greeting is answered with.
    pub fn status_code(&self) -> (r: u16)
        ensures
            r == self.status_code_spec(),
    {
        STATUS_BAD_REQUEST
    }

    /// The human-readable reason sent back with the refusal.
    pub fn message(&self) -> (r: &'static str)
        ensures
            r@ == error_message(*self),
    {
        match self {
            GreetingError::InvalidNumber => "Number is not a non-negative integer",
            GreetingError::NumberTooHigh => "Number is too high",
        }
    }
}

/// A greeting's outcome, as values.
pub open spec fn outcome_view(r: Result<Person, GreetingError>) -> Result<PersonView, GreetingError> {
    match r {
        Ok(p) => Ok(p@),
        Err(e) => Err(e),
    }
}

/// The HTTP status a greeting's outcome is answered with.
pub open spec fn outcome_status(r: Result<PersonView, GreetingError>) -> u16 {
    match r {
        Ok(_) => STATUS_OK,
        Err(e) => e.status_code_spec(),
    }
}

/// The greeting for a name and an already-read number.
pub open spec fn greeting_for(name: Seq<char>, number: u64) -> Result<PersonView, GreetingError> {
    if number > MAX_PICKED_NUMBER {
        Err(GreetingError::NumberTooHigh)
    } else {
        Ok(PersonView { name, picked_number: number })
    }
}

/// The greeting for a name and the raw number segment of the path.
pub open spec fn greeting_for_segment(name: Seq<char>, number: Seq<char>) -> Result<
    PersonView,
    GreetingError,
> {
    match number_of(number) {
        None => Err(GreetingError::InvalidNumber),
        Some(n) => greeting_for(name, n),
    }
}

/// Answers a greeting for `name` and a number already read as an integer:
/// the name and number echoed back, or `NumberTooHigh` above the limit.
pub fn hello(name: String, number: u64) -> (r: Result<Person, GreetingError>)
    ensures
        outcome_view(r) == greeting_for(name@, number),
{
    if number > MAX_PICKED_NUMBER {
        return Err(GreetingError::NumberTooHigh);
    }
    Ok(Person { name, picked_number: number })
}

/// Answers a greeting for `name` and the raw number segment of the path:
/// `InvalidNumber` where the segment names no `u64`, otherwise as `hello`.
pub fn greeting(name: String, number: &str) -> (r: Result<Person, GreetingError>)
    ensures
        outcome_view(r) == greeting_for_segment(name@, number@),
{
    match parse_number(number) {
        None => Err(GreetingError::InvalidNumber),
        Some(n) => hello(name, n),
    }
}

/// Any number up to the limit, written in decimal, is echoed back with the
/// name, and the answer is a success.
pub proof fn lemma_small_number_greeted(name: Seq<char>, number: u64)
    requires
        number <= MAX_PICKED_NUMBER,
    ensures
        greeting_for_segment(name, decimal_text(number as nat)) == Ok::<PersonView, GreetingError>(
            PersonView { name, picked_number: number },
        ),
        outcome_status(greeting_for_segment(name, decimal_text(number as nat))) == STATUS_OK,
{
    lemma_decimal_text_names(number as nat);
}

/// Any number above the limit, written in decimal, is refused as a client
/// error; within `u64` the refusal is `NumberTooHigh`.
pub proof fn lemma_large_number_refused(name: Seq<char>, number: nat)
    requires
        number > MAX_PICKED_NUMBER,
    ensures
        greeting_for_segment(name, decimal_text(number)) is Err,
        outcome_status(greeting_for_segment(name, decimal_text(number))) == STATUS_BAD_REQUEST,
        number <= u64::MAX ==> greeting_for_segment(name, decimal_text(number)) == Err::<
            PersonView,
            GreetingError,
        >(GreetingError::NumberTooHigh),
{
    lemma_decimal_text_names(number);
}

/// A segment that is not a numeral is refused as `InvalidNumber`, a client
/// error.
pub proof fn lemma_non_numeral_refused(name: Seq<char>, number: Seq<char>)
    requires
        !is_numeral(number),
    ensures
        greeting_for_segment(name, number) == Err::<PersonView, GreetingError>(
            GreetingError::InvalidNumber,
        ),
        outcome_status(greeting_for_segment(name, number)) == STATUS_BAD_REQUEST,
{
}

/// A greeting depends on its inputs alone: two answers to the same name and
/// segment are the same answer.
pub proof fn lemma_greeting_is_pure(
    name: Seq<char>,
    number: Seq<char>,
    first: Result<Person, GreetingError>,
    second: Result<Person, GreetingError>,
)
    requires
        outcome_view(first) == greeting_for_segment(name, number),
        outcome_view(second) == greeting_for_segment(name, number),
    ensures
        outcome_view(first) == outcome_view(second),
        outcome_status(outcome_view(first)) == outcome_status(outcome_view(second)),
{
}

} // verus!
