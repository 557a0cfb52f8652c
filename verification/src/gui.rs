//! The state logic of the counter window: a message and how it changes the count.

use vstd::prelude::*;

verus! {

/// What the window can ask of the counter.
#[derive(Debug, Clone, Copy)]
pub enum Message {
    Increment,
}

/// The count after `message` is applied to `counter`: an increment adds one.
pub open spec fn spec_update(counter: int, message: Message) -> int {
    match message {
        Message::Increment => counter + 1,
    }
}

/// The count after the messages `ms` are applied, in order, to `counter`.
pub open spec fn apply_messages(counter: int, ms: Seq<Message>) -> int
    decreases ms.len(),
{
    if ms.len() == 0 {
        counter
    } else {
        apply_messages(spec_update(counter, ms[0]), ms.drop_first())
    }
}

/// Applies `message` to `counter`: an increment adds one.
pub fn update(counter: &mut u64, message: Message)
    requires
        *old(counter) < u64::MAX,
    ensures
        *final(counter) == spec_update(*old(counter) as int, message),
{
    match message {
        Message::Increment => *counter += 1,
    }
}

} // verus!
