//! The expiration queue: `tokio_util::time::DelayQueue`, and what the cache assumes of it.
//!
//! Nothing in this file is proved. Each function below makes one call into the queue,
//! and its contract restates what the queue's documentation and source say of that call.
//!
//! The queue keeps time with a Tokio timer. `schedule`, `cancel` and
//! `poll_next_expired` therefore have to run inside a Tokio runtime whose time driver
//! is enabled; outside of one the queue panics. No contract can say so, since the
//! runtime is no argument of the call.

use std::task::Context;
use std::task::Poll;
use std::time::Duration;
use tokio_util::time::delay_queue::Key;
use tokio_util::time::DelayQueue;
use vstd::prelude::*;

verus! {

/// `tokio_util`'s delay queue, opaque to the proofs.
#[verifier::external_type_specification]
#[verifier::external_body]
#[verifier::reject_recursive_types(T)]
pub struct ExDelayQueue<T>(tokio_util::time::DelayQueue<T>);

/// The handle that the queue gives out for a deadline, opaque to the proofs.
#[verifier::external_type_specification]
#[verifier::external_body]
pub struct ExKey(tokio_util::time::delay_queue::Key);

/// The context of the task that polls, carried through to the queue.
#[verifier::external_type_specification]
#[verifier::external_body]
pub struct ExContext<'a>(std::task::Context<'a>);

/// The most deadlines a queue can hold at once (`DelayQueue`'s `MAX_ENTRIES`).
pub const MAX_PENDING: usize = 1_073_741_823;

/// The longest delay that `schedule` takes, in seconds: 365 days. The queue's timer wheel
/// spans 2^36 - 1 milliseconds, a little over two years.
pub const MAX_TTL_SECS: u64 = 31_536_000;

/// The deadlines pending in a queue: each handle that the queue has given out and not
/// yet yielded or cancelled, with the value scheduled under it and its deadline. A
/// deadline is counted in milliseconds since the queue was created, as the queue
/// itself stores it.
pub uninterp spec fn pending(queue: DelayQueue<String>) -> Map<Key, (Seq<char>, int)>;

/// The queue's clock, in milliseconds since the queue was created: the deadline of the
/// latest timer that the queue has seen fire, which is the time up to which it lets its
/// timer wheel yield. A timer fires no earlier than its deadline, so this clock never
/// runs ahead of the runtime's.
pub uninterp spec fn queue_clock(queue: DelayQueue<String>) -> int;

/// What one poll of the queue reported.
pub enum Expiry {
    /// The deadline behind `handle`, scheduled for `key`, has elapsed and has left the
    /// queue.
    Due { handle: Key, key: String },
    /// Deadlines are pending, and the queue yields none of them for now.
    Waiting,
    /// No deadline is pending.
    Drained,
}

/// `DelayQueue::new`: a queue without deadlines, whose clock starts at zero.
#[verifier::external_body]
pub(crate) fn new_queue() -> (queue: DelayQueue<String>)
    ensures
        pending(queue).is_empty(),
        queue_clock(queue) == 0,
{
    DelayQueue::new()
}

/// `DelayQueue::insert`: schedules `key` to expire `ttl_secs` seconds from now and
/// returns the handle of the new deadline.
///
/// The queue hands out no handle that is still pending, and leaves the other deadlines
/// alone. It sets the new deadline to the runtime's current time plus the delay, rounded
/// up to a millisecond, which is at least the whole delay past its own clock. The clock
/// moves only in a poll.
///
/// The queue panics when it is full, which `requires` leaves out, and when the new
/// deadline lies more than the range of its timer wheel past its clock. The clock moves
/// only when a deadline fires, so with a delay of at most `MAX_TTL_SECS` the latter
/// takes a queue in which no deadline has fired for over a year; the current time is no
/// argument of the call, and no `requires` can leave that out. A delay of zero is left
/// out: the queue keeps a deadline that has passed before it was scheduled apart from
/// the others, and nothing here speaks of that case.
#[verifier::external_body]
pub(crate) fn schedule(
    queue: &mut DelayQueue<String>,
    key: String,
    ttl_secs: u64,
) -> (handle: Key)
    requires
        pending(*old(queue)).dom().finite(),
        pending(*old(queue)).len() < MAX_PENDING,
        1 <= ttl_secs <= MAX_TTL_SECS,
    ensures
        !pending(*old(queue)).contains_key(handle),
        pending(*final(queue)) == pending(*old(queue)).insert(
            handle,
            pending(*final(queue))[handle],
        ),
        pending(*final(queue))[handle].0 == key@,
        pending(*final(queue))[handle].1 >= queue_clock(*old(queue)) + 1000 * ttl_secs,
        queue_clock(*final(queue)) == queue_clock(*old(queue)),
{
    queue.insert(key, Duration::from_secs(ttl_secs))
}

/// `DelayQueue::try_remove`: cancels the deadline behind `handle`. On a handle that is
/// not pending the queue does nothing.
///
/// The other deadlines and the queue's clock stay as they were.
#[verifier::external_body]
pub(crate) fn cancel(queue: &mut DelayQueue<String>, handle: &Key)
    ensures
        pending(*final(queue)) == pending(*old(queue)).remove(*handle),
        queue_clock(*final(queue)) == queue_clock(*old(queue)),
{
    queue.try_remove(handle);
}

/// `DelayQueue::poll_expired`: takes the next elapsed deadline out of the queue, if
/// there is one, and otherwise arranges for the task behind `cx` to be woken.
///
/// The queue yields a deadline only once its clock has reached it, and of the pending
/// deadlines it yields an earliest one; the rest stay as they were. It reports `Drained`
/// exactly when nothing is pending. Its clock never moves backwards.
#[verifier::external_body]
pub(crate) fn poll_next_expired(
    queue: &mut DelayQueue<String>,
    cx: &mut Context<'_>,
) -> (report: Expiry)
    ensures
        queue_clock(*final(queue)) >= queue_clock(*old(queue)),
        match report {
            Expiry::Due { handle, key } => {
                &&& pending(*old(queue)).contains_key(handle)
                &&& pending(*old(queue))[handle].0 == key@
                &&& pending(*old(queue))[handle].1 <= queue_clock(*final(queue))
                &&& forall|other: Key| #[trigger]
                    pending(*old(queue)).contains_key(other) ==> pending(*old(queue))[handle].1
                        <= pending(*old(queue))[other].1
                &&& pending(*final(queue)) == pending(*old(queue)).remove(handle)
            },
            Expiry::Waiting => {
                &&& pending(*final(queue)) == pending(*old(queue))
                &&& !pending(*old(queue)).is_empty()
            },
            Expiry::Drained => {
                &&& pending(*final(queue)) == pending(*old(queue))
                &&& pending(*old(queue)).is_empty()
            },
        },
{
    match queue.poll_expired(cx) {
        Poll::Ready(Some(expired)) => {
            Expiry::Due { handle: expired.key(), key: expired.into_inner() }
        },
        Poll::Ready(None) => Expiry::Drained,
        Poll::Pending => Expiry::Waiting,
    }
}

} // verus!
