use vstd::prelude::*;

use crate::thread_safe_queue::ThreadSafeQueue;

verus! {

/// A request to submit one item.
pub struct AddUserRequest {
    pub data: String,
}

/// How a submission ended.
pub enum AddOutcome {
    /// The item was appended to the queue.
    Added,
    /// The item was empty and the queue was not consulted.
    Invalid,
    /// The queue was full; nothing changed.
    QueueFull,
}

/// The body answered to a submission.
pub struct AddUserResponse {
    pub error: bool,
    pub is_added: bool,
}

/// The body answered to a fetch: whether an item came, and which.
pub struct GetUserResponse {
    pub error: bool,
    pub data: Option<String>,
    pub is_returned_data: bool,
}

/// The body answered to a liveness probe.
pub struct HealthResponse {
    pub status: String,
}

/// The body answered to a request for statistics.
pub struct MetricsResponse {
    pub queue_size: usize,
}

/// The HTTP status that answers a submission that ended in `outcome`.
pub open spec fn add_status(outcome: AddOutcome) -> u16 {
    match outcome {
        AddOutcome::Added => 201,
        AddOutcome::Invalid => 400,
        AddOutcome::QueueFull => 429,
    }
}

impl AddOutcome {
    /// The HTTP status for this outcome: created, bad request, or too many requests.
    pub fn status_code(&self) -> (r: u16)
        ensures
            r == add_status(*self),
    {
        match self {
            AddOutcome::Added => 201,
            AddOutcome::Invalid => 400,
            AddOutcome::QueueFull => 429,
        }
    }

    /// The body for this outcome: an error unless the item was added.
    pub fn response(&self) -> (r: AddUserResponse)
        ensures
            r.is_added == (*self is Added),
            r.error == !(*self is Added),
    {
        let added = match self {
            AddOutcome::Added => true,
            _ => false,
        };
        AddUserResponse { error: !added, is_added: added }
    }
}

/// Submits the item of `req`: an empty item is refused without touching the queue;
/// any other is offered to the queue, which accepts it or reports that it is full.
pub fn submit(queue: &ThreadSafeQueue<String>, req: AddUserRequest) -> (r: AddOutcome)
    ensures
        (r is Invalid) == (req.data@.len() == 0),
{
    if req.data.as_str().is_empty() {
        AddOutcome::Invalid
    } else if queue.enqueue(req.data) {
        AddOutcome::Added
    } else {
        AddOutcome::QueueFull
    }
}

/// The body that reports what a dequeue returned: never an error, and the item if
/// there was one.
pub fn get_user_response(item: Option<String>) -> (r: GetUserResponse)
    ensures
        !r.error,
        r.data == item,
        r.is_returned_data == (item is Some),
{
    let is_returned_data = item.is_some();
    GetUserResponse { error: false, data: item, is_returned_data }
}

/// Takes the oldest item from the queue and reports it; an empty queue is no error.
pub fn fetch(queue: &ThreadSafeQueue<String>) -> (r: GetUserResponse)
    ensures
        !r.error,
        r.is_returned_data == (r.data is Some),
{
    get_user_response(queue.dequeue())
}

/// The current number of items, which never exceeds the queue's capacity.
pub fn metrics_response(queue: &ThreadSafeQueue<String>) -> (r: MetricsResponse)
    ensures
        r.queue_size <= queue.capacity_spec(),
{
    MetricsResponse { queue_size: queue.size() }
}

/// The answer to a liveness probe, whatever the queue holds.
pub fn health_response() -> (r: HealthResponse)
    ensures
        r.status@ == "healthy"@,
{
    HealthResponse { status: "healthy".to_string() }
}

} // verus!
