pub mod bounded_queue;
pub mod handlers;
pub mod history;
pub mod thread_safe_queue;
