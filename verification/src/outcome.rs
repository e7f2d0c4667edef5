//! What a wait comes to: still pending, ready with a result, or a misuse of the group.
use crate::outside::{may_show, shown};
use crate::text::push_decimal;
use std::sync::Arc;
use vstd::prelude::*;

verus! {

/// A call that the rules of a group forbid. Callers are expected to panic with its message.
#[derive(Debug, Clone, Copy, PartialEq, Eq, Structural)]
pub enum Misuse {
    /// More work was reported done than was registered.
    CountBelowZero,
    /// Work was registered after the wait had begun.
    AddDuringWait,
    /// The group is in use by another waiter, or its wait cannot take this call any more.
    InUse,
    /// A wait for no arrivals at all.
    NothingToWaitFor,
}

impl Misuse {
    /// The panic message of this misuse.
    pub open spec fn message_text(self) -> Seq<char> {
        match self {
            Misuse::CountBelowZero => "WaitGroup count < 0"@,
            Misuse::AddDuringWait => "WaitGroup::add called during wait"@,
            Misuse::InUse => "Other threads might still be using it"@,
            Misuse::NothingToWaitFor => "wait_arrive count <= 0"@,
        }
    }

    /// The panic message of this misuse.
    pub fn message(&self) -> (text: &'static str)
        ensures
            text@ == self.message_text(),
    {
        match self {
            Misuse::CountBelowZero => "WaitGroup count < 0",
            Misuse::AddDuringWait => "WaitGroup::add called during wait",
            Misuse::InUse => "Other threads might still be using it",
            Misuse::NothingToWaitFor => "wait_arrive count <= 0",
        }
    }
}

/// Why a wait failed.
#[derive(Debug)]
pub enum WaitError {
    /// A task reported this error, the first of the group; `count` is the counter when it was seen.
    Failed { count: i32, error: Arc<anyhow::Error> },
    /// The counter of arrivals is negative.
    NegativeCount { count: i32 },
    /// More tasks arrived than were waited for.
    Exceeded { count: i32, target: i32 },
}

/// The message of a wait that failed on a reported error shown as `text`.
pub open spec fn failure_text(count: int, text: Seq<char>) -> Seq<char> {
    "err:error => count:"@ + crate::text::decimal(count) + ", err:"@ + text
}

/// The message of a wait that found the counter negative.
pub open spec fn negative_text(count: int) -> Seq<char> {
    "err:count < 0 => count:"@ + crate::text::decimal(count)
}

/// The message of a wait that found more arrivals than it waits for.
pub open spec fn exceeded_text(count: int, target: int) -> Seq<char> {
    "err:count:"@ + crate::text::decimal(count) + " > wait_arrive_count:"@ + crate::text::decimal(
        target,
    )
}

/// The message of a wait that failed on a reported error shown as `text`.
pub fn failure_message(count: i32, text: &str) -> (message: String)
    ensures
        message@ == failure_text(count as int, text@),
{
    let mut message = "err:error => count:".to_owned();
    push_decimal(&mut message, count);
    message.append(", err:");
    message.append(text);
    message
}

impl WaitError {
    /// The message of the error. The text shown for a reported error is its own.
    pub fn message(&self) -> (message: String)
        ensures
            match *self {
                WaitError::Failed { count, error } => exists|text: Seq<char>|
                    may_show(*error, text) && message@ == #[trigger] failure_text(
                        count as int,
                        text,
                    ),
                WaitError::NegativeCount { count } => message@ == negative_text(count as int),
                WaitError::Exceeded { count, target } => message@ == exceeded_text(
                    count as int,
                    target as int,
                ),
            },
    {
        match self {
            WaitError::Failed { count, error } => {
                let text = shown(error);
                failure_message(*count, text.as_str())
            },
            WaitError::NegativeCount { count } => {
                let mut message = "err:count < 0 => count:".to_owned();
                push_decimal(&mut message, *count);
                message
            },
            WaitError::Exceeded { count, target } => {
                let mut message = "err:count:".to_owned();
                push_decimal(&mut message, *count);
                message.append(" > wait_arrive_count:");
                push_decimal(&mut message, *target);
                message
            },
        }
    }
}

/// Where a wait stands.
#[derive(Debug)]
pub enum Readiness {
    /// Not over yet.
    Pending,
    /// Over, with this result.
    Ready(Result<(), WaitError>),
    /// The group was misused.
    Fault(Misuse),
}

/// Where the wait for a counter to reach zero stands.
pub open spec fn zero_readiness(count: i32, error: Option<Arc<anyhow::Error>>) -> Readiness {
    if count < 0 {
        Readiness::Fault(Misuse::CountBelowZero)
    } else {
        match error {
            Some(error) => Readiness::Ready(Err(WaitError::Failed { count, error })),
            None => if count == 0 {
                Readiness::Ready(Ok(()))
            } else {
                Readiness::Pending
            },
        }
    }
}

/// Where the wait for a counter to reach zero stands.
pub fn check_zero(count: i32, error: &Option<Arc<anyhow::Error>>) -> (readiness: Readiness)
    ensures
        readiness == zero_readiness(count, *error),
{
    if count < 0 {
        return Readiness::Fault(Misuse::CountBelowZero);
    }
    if let Some(error) = error {
        return Readiness::Ready(Err(WaitError::Failed { count, error: error.clone() }));
    }
    if count == 0 {
        Readiness::Ready(Ok(()))
    } else {
        Readiness::Pending
    }
}

/// Whether `text` is the four parts one after the other.
pub open spec fn in_parts(
    text: Seq<char>,
    first: Seq<char>,
    second: Seq<char>,
    third: Seq<char>,
    fourth: Seq<char>,
) -> bool {
    let two = first.len() + second.len();
    &&& text.len() == two + third.len() + fourth.len()
    &&& text.take(first.len() as int) == first
    &&& text.subrange(first.len() as int, two as int) == second
    &&& text.subrange(two as int, (two + third.len()) as int) == third
    &&& text.skip((two + third.len()) as int) == fourth
}

/// The message of a failed wait tells the counter, and the whole text of the error at its end.
pub proof fn law_failure_tells_count_and_error(count: int, text: Seq<char>)
    ensures
        in_parts(
            failure_text(count, text),
            "err:error => count:"@,
            crate::text::decimal(count),
            ", err:"@,
            text,
        ),
{
    let message = failure_text(count, text);
    let first = "err:error => count:"@;
    let second = crate::text::decimal(count);
    let two = first.len() + second.len();
    assert(message.take(first.len() as int) == first);
    assert(message.subrange(first.len() as int, two as int) == second);
    assert(message.subrange(two as int, (two + ", err:"@.len()) as int) == ", err:"@);
    assert(message.skip((two + ", err:"@.len()) as int) == text);
}

/// The message of a wait that found too many arrivals tells both numbers.
pub proof fn law_excess_tells_both_numbers(count: int, target: int)
    ensures
        in_parts(
            exceeded_text(count, target),
            "err:count:"@,
            crate::text::decimal(count),
            " > wait_arrive_count:"@,
            crate::text::decimal(target),
        ),
{
    let message = exceeded_text(count, target);
    let first = "err:count:"@;
    let second = crate::text::decimal(count);
    let third = " > wait_arrive_count:"@;
    let two = first.len() + second.len();
    assert(message.take(first.len() as int) == first);
    assert(message.subrange(first.len() as int, two as int) == second);
    assert(message.subrange(two as int, (two + third.len()) as int) == third);
    assert(message.skip((two + third.len()) as int) == crate::text::decimal(target));
}

/// The message of a wait that found the counter negative tells the counter.
pub proof fn law_negative_tells_count(count: int)
    ensures
        in_parts(
            negative_text(count),
            "err:count < 0 => count:"@,
            crate::text::decimal(count),
            Seq::empty(),
            Seq::empty(),
        ),
{
    let message = negative_text(count);
    let first = "err:count < 0 => count:"@;
    assert(message.take(first.len() as int) == first);
    assert(message.subrange(first.len() as int, message.len() as int) == crate::text::decimal(
        count,
    ));
    assert(message.subrange(message.len() as int, message.len() as int) == Seq::<char>::empty());
    assert(message.skip(message.len() as int) == Seq::<char>::empty());
}

} // verus!
